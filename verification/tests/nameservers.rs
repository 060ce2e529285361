use zone_transfer::nameservers::resolve_nameservers;

fn names(list: &[&str]) -> Vec<String> {
    list.iter().map(|s| s.to_string()).collect()
}

#[test]
fn nameservers_one_per_line() {
    assert_eq!(
        resolve_nameservers("ns1.example.com.\nns2.example.com.\n"),
        names(&["ns1.example.com.", "ns2.example.com."])
    );
}

#[test]
fn nameservers_of_an_empty_answer() {
    assert_eq!(resolve_nameservers(""), Vec::<String>::new());
    assert_eq!(resolve_nameservers("\n \n\t\r\n"), Vec::<String>::new());
}

#[test]
fn nameservers_are_trimmed() {
    assert_eq!(
        resolve_nameservers("  ns1.example.com. \t\r\n\tns2.example.com."),
        names(&["ns1.example.com.", "ns2.example.com."])
    );
}

#[test]
fn nameservers_skip_blank_lines() {
    assert_eq!(resolve_nameservers("\n\nns1.\n   \nns2.\n\n"), names(&["ns1.", "ns2."]));
}

#[test]
fn nameservers_are_listed_once() {
    assert_eq!(
        resolve_nameservers("b.\na.\nb.\n a. \nc.\na.\n"),
        names(&["b.", "a.", "c."])
    );
}

#[test]
fn nameservers_duplicates_and_blanks_together() {
    let response = "ns1.example.com.\n\n  ns2.example.com.  \nns1.example.com.\n\t\nns3.example.com.\r\nns2.example.com.\n";
    assert_eq!(
        resolve_nameservers(response),
        names(&["ns1.example.com.", "ns2.example.com.", "ns3.example.com."])
    );
}

#[test]
fn nameservers_keep_inner_white_space_and_case() {
    assert_eq!(resolve_nameservers("a b\nA B\na  b\n"), names(&["a b", "A B", "a  b"]));
}
