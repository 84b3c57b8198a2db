use waybar_modules::stocks::{get_html_filtered, get_html_filtered_checked};

#[test]
fn matches_in_order() {
    let found = get_html_filtered("a1b22c333", "[0-9]+");
    assert_eq!(found, vec![String::from("1"), String::from("22"), String::from("333")]);
}

#[test]
fn no_match() {
    assert_eq!(get_html_filtered("abc", "[0-9]+"), Vec::<String>::new());
}

#[test]
fn invalid_expression_is_refused_before_the_search() {
    assert_eq!(get_html_filtered_checked("abc", "foo(bar"), None);
}

#[test]
fn checked_search_finds_the_same_matches() {
    assert_eq!(
        get_html_filtered_checked("a1b22c333", "[0-9]+"),
        Some(vec![String::from("1"), String::from("22"), String::from("333")])
    );
}

#[test]
fn domain_announcement() {
    let page = "<div>Dominio Oficial <b>x</b> (29/03/2025) <a href=\"https://dontorrent.website/\">https://dontorrent.website</a> (Disponible)</div>";
    let found = get_html_filtered(page, "https://[a-z.]+");
    assert_eq!(found, vec![String::from("https://dontorrent.website"), String::from("https://dontorrent.website")]);
}
