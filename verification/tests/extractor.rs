use feedcore::extract::extract_content;

#[test]
fn paragraph_alone_yields_its_text() {
    assert_eq!(extract_content("<p>Hello world</p>"), Some("Hello world".to_string()));
}

#[test]
fn empty_article_falls_back_to_paragraph() {
    let html = "<html><body><article></article><p>Hello world</p></body></html>";
    assert_eq!(extract_content(html), Some("Hello world".to_string()));
}

#[test]
fn article_beats_paragraph() {
    let html = "<article>Main text</article><p>other</p>";
    assert_eq!(extract_content(html), Some("Main text".to_string()));
}

#[test]
fn main_beats_content_division() {
    let html = "<main>Core</main><div class=\"content\">aside</div>";
    assert_eq!(extract_content(html), Some("Core".to_string()));
}

#[test]
fn content_division_is_found() {
    let html = "<div class=\"content\">Body text</div>";
    assert_eq!(extract_content(html), Some("Body text".to_string()));
}

#[test]
fn post_division_is_found() {
    let html = "<div class=\"post\">Post text</div>";
    assert_eq!(extract_content(html), Some("Post text".to_string()));
}

#[test]
fn no_matching_elements_yields_no_content() {
    assert_eq!(extract_content("<span>nothing structured</span>"), None);
}

#[test]
fn whitespace_only_match_yields_no_content() {
    assert_eq!(extract_content("<p>   \n\t  </p>"), None);
}

#[test]
fn text_nodes_are_joined_with_spaces() {
    assert_eq!(extract_content("<p>a<b>b</b>c</p>"), Some("a b c".to_string()));
}

#[test]
fn cleaning_trims_and_collapses_breaks() {
    assert_eq!(extract_content("<p>  line1\nline2  </p>"), Some("line1 line2".to_string()));
}

#[test]
fn first_matching_element_only() {
    let html = "<p>first</p><p>second</p>";
    assert_eq!(extract_content(html), Some("first".to_string()));
}
