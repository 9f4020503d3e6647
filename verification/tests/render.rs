use hatena_publish::model::{Config, Content};
use hatena_publish::xml::escape_xml;
use hatena_publish::xml::render;

fn article(title: &str, body: &str, draft: &str, preview: &str, cats: &[&str]) -> Content {
    Content {
        body: body.to_string(),
        config: Config {
            title: title.to_string(),
            draft: draft.to_string(),
            preview: preview.to_string(),
            category: cats.iter().map(|c| c.to_string()).collect(),
        },
    }
}

#[test]
fn categories_render_in_order_one_element_each() {
    let doc = render(&article("t", "b", "no", "no", &["a", "b", "c"]));
    assert!(doc.contains(
        "<category term=\"a\" /><category term=\"b\" /><category term=\"c\" />"
    ));
    assert_eq!(doc.matches("<category").count(), 3);
}

#[test]
fn duplicate_categories_are_kept() {
    let doc = render(&article("t", "b", "no", "no", &["a", "a"]));
    assert!(doc.contains("<category term=\"a\" /><category term=\"a\" />"));
    assert_eq!(doc.matches("<category").count(), 2);
}

#[test]
fn empty_category_list_renders_no_category_elements() {
    let doc = render(&article("t", "b", "no", "no", &[]));
    assert_eq!(doc.matches("<category").count(), 0);
    assert!(roxmltree::Document::parse(&doc).is_ok());
}

#[test]
fn rendering_is_deterministic() {
    let a = article("Title", "Some body text", "yes", "no", &["x", "y"]);
    let b = article("Title", "Some body text", "yes", "no", &["x", "y"]);
    assert_eq!(render(&a), render(&b));
}

#[test]
fn draft_and_preview_pass_through_verbatim() {
    let doc = render(&article("t", "b", "yes", "no", &[]));
    assert!(doc.contains("<app:draft>yes</app:draft>"));
    assert!(doc.contains("<app:preview>no</app:preview>"));
}

#[test]
fn renders_exact_document() {
    let doc = render(&article("Title", "Hello body", "yes", "no", &["rust"]));
    let expected = "<?xml version=\"1.0\" encoding=\"utf-8\"?>\n\
        <entry xmlns=\"http://www.w3.org/2005/Atom\"\n       \
        xmlns:app=\"http://www.w3.org/2007/app\">\n  \
        <title>Title</title>\n  \
        <author><name>name</name></author>\n  \
        <content type=\"text/x-markdown\">\nHello body\n  </content>\n  \
        <category term=\"rust\" />\n  \
        <app:control>\n    <app:draft>yes</app:draft>\n    \
        <app:preview>no</app:preview>\n  </app:control>\n</entry>";
    assert_eq!(doc, expected);
}

#[test]
fn escapes_xml_significant_characters_and_reparses() {
    let body = "a < b & c \"quoted\"";
    let doc = render(&article("t<&", body, "no", "no", &["x&y"]));
    let parsed = roxmltree::Document::parse(&doc).unwrap();
    let content = parsed
        .descendants()
        .find(|n| n.has_tag_name("content"))
        .unwrap();
    assert_eq!(content.text().unwrap(), format!("\n{}\n  ", body));
    let title = parsed
        .descendants()
        .find(|n| n.has_tag_name("title"))
        .unwrap();
    assert_eq!(title.text().unwrap(), "t<&");
    let category = parsed
        .descendants()
        .find(|n| n.has_tag_name("category"))
        .unwrap();
    assert_eq!(category.attribute("term").unwrap(), "x&y");
}

#[test]
fn escape_xml_replaces_each_special_character() {
    assert_eq!(escape_xml("a<b&c\"d'e>"), "a&lt;b&amp;c&quot;d&apos;e&gt;");
    assert_eq!(escape_xml(""), "");
    assert_eq!(escape_xml("plain text"), "plain text");
}

#[test]
fn document_has_exactly_one_of_each_fixed_element() {
    let doc = render(&article("t", "b", "no", "no", &["a", "b"]));
    assert_eq!(doc.matches("<title>").count(), 1);
    assert_eq!(doc.matches("<content").count(), 1);
    assert_eq!(doc.matches("<app:draft>").count(), 1);
    assert_eq!(doc.matches("<app:preview>").count(), 1);
    assert_eq!(doc.matches("<author>").count(), 1);
}
