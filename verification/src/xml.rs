//! The entry renderer: turns an article into the AtomPub entry document that
//! the blog service expects. Every user-supplied text field is entity-escaped
//! before it is embedded, and an unescaping spec proves the original text
//! recoverable from the document. Element order is fixed: title, the static
//! author placeholder, content, the category elements in metadata order, and
//! the draft/preview control block.

use vstd::prelude::*;
use crate::model::{Content, category_views};

verus! {

/// The five characters significant to XML in text or attribute content.
pub open spec fn is_xml_special(c: char) -> bool {
    c == '&' || c == '<' || c == '>' || c == '"' || c == '\''
}

pub open spec fn ent_amp() -> Seq<char> {
    seq!['&', 'a', 'm', 'p', ';']
}

pub open spec fn ent_lt() -> Seq<char> {
    seq!['&', 'l', 't', ';']
}

pub open spec fn ent_gt() -> Seq<char> {
    seq!['&', 'g', 't', ';']
}

pub open spec fn ent_quot() -> Seq<char> {
    seq!['&', 'q', 'u', 'o', 't', ';']
}

pub open spec fn ent_apos() -> Seq<char> {
    seq!['&', 'a', 'p', 'o', 's', ';']
}

/// What one character becomes in escaped text: its entity if it is special,
/// itself otherwise.
pub open spec fn escape_char(c: char) -> Seq<char> {
    if c == '&' {
        ent_amp()
    } else if c == '<' {
        ent_lt()
    } else if c == '>' {
        ent_gt()
    } else if c == '"' {
        ent_quot()
    } else if c == '\'' {
        ent_apos()
    } else {
        seq![c]
    }
}

/// Entity-escaped form of a text: each character replaced by `escape_char`.
pub open spec fn xml_escaped(s: Seq<char>) -> Seq<char>
    decreases s.len(),
{
    if s.len() == 0 {
        Seq::empty()
    } else {
        xml_escaped(s.drop_last()) + escape_char(s.last())
    }
}

/// Escaping distributes over concatenation.
pub proof fn lemma_xml_escaped_concat(a: Seq<char>, b: Seq<char>)
    ensures
        xml_escaped(a + b) == xml_escaped(a) + xml_escaped(b),
    decreases b.len(),
{
    if b.len() == 0 {
        assert(a + b =~= a);
        assert(xml_escaped(a) + xml_escaped(b) =~= xml_escaped(a));
    } else {
        assert((a + b).drop_last() =~= a + b.drop_last());
        lemma_xml_escaped_concat(a, b.drop_last());
        assert((a + b).last() == b.last());
        assert(xml_escaped(a) + xml_escaped(b.drop_last()) + escape_char(b.last()) =~= xml_escaped(
            a,
        ) + (xml_escaped(b.drop_last()) + escape_char(b.last())));
    }
}

/// Text free of XML-special characters passes through escaping verbatim: in
/// particular the draft and preview wire tokens appear in the document exactly
/// as they stand in the metadata.
pub proof fn lemma_escape_plain_identity(s: Seq<char>)
    requires
        forall|i: int| 0 <= i < s.len() ==> !is_xml_special(s[i]),
    ensures
        xml_escaped(s) == s,
    decreases s.len(),
{
    if s.len() == 0 {
        assert(xml_escaped(s) =~= s);
    } else {
        assert(forall|i: int| 0 <= i < s.drop_last().len() ==> !is_xml_special(
            #[trigger] s.drop_last()[i],
        ));
        lemma_escape_plain_identity(s.drop_last());
        assert(!is_xml_special(s[s.len() - 1]));
        assert(escape_char(s.last()) =~= seq![s.last()]);
        assert(s.drop_last() + seq![s.last()] =~= s);
    }
}

/// `p` is the first `p.len()` characters of `s`.
pub open spec fn has_prefix(s: Seq<char>, p: Seq<char>) -> bool {
    p.len() <= s.len() && s.take(p.len() as int) == p
}

/// Inverse reading of escaped text: each entity back to its character, any
/// other character kept. Total on all texts; on escaped ones it recovers the
/// original exactly (`lemma_unescape_escape`).
pub open spec fn xml_unescaped(s: Seq<char>) -> Seq<char>
    decreases s.len(),
{
    if s.len() == 0 {
        Seq::empty()
    } else if has_prefix(s, ent_amp()) {
        seq!['&'] + xml_unescaped(s.skip(5))
    } else if has_prefix(s, ent_lt()) {
        seq!['<'] + xml_unescaped(s.skip(4))
    } else if has_prefix(s, ent_gt()) {
        seq!['>'] + xml_unescaped(s.skip(4))
    } else if has_prefix(s, ent_quot()) {
        seq!['"'] + xml_unescaped(s.skip(6))
    } else if has_prefix(s, ent_apos()) {
        seq!['\''] + xml_unescaped(s.skip(6))
    } else {
        seq![s[0]] + xml_unescaped(s.skip(1))
    }
}

proof fn lemma_concat_parts(e: Seq<char>, t: Seq<char>)
    ensures
        (e + t).take(e.len() as int) == e,
        (e + t).skip(e.len() as int) == t,
{
    assert((e + t).take(e.len() as int) =~= e);
    assert((e + t).skip(e.len() as int) =~= t);
}

/// Escaping loses nothing: unescaping an escaped text gives back the original,
/// character for character, so the original text is recoverable from the
/// rendered document.
pub proof fn lemma_unescape_escape(s: Seq<char>)
    ensures
        xml_unescaped(xml_escaped(s)) == s,
    decreases s.len(),
{
    if s.len() == 0 {
        assert(xml_unescaped(xml_escaped(s)) =~= s);
    } else {
        let c = s[0];
        let rest = s.skip(1);
        lemma_unescape_escape(rest);
        assert(s =~= seq![c] + rest);
        lemma_xml_escaped_concat(seq![c], rest);
        assert(xml_escaped(seq![c]) =~= escape_char(c)) by {
            let one = seq![c];
            assert(one.drop_last() =~= Seq::<char>::empty());
            assert(xml_escaped(Seq::<char>::empty()) == Seq::<char>::empty());
            assert(one.last() == c);
            assert(Seq::<char>::empty() + escape_char(c) =~= escape_char(c));
        }
        let e = escape_char(c);
        let t = xml_escaped(rest);
        let es = e + t;
        assert(xml_escaped(s) == es);
        lemma_concat_parts(e, t);
        if c == '&' {
            assert(has_prefix(es, ent_amp()));
            assert(xml_unescaped(es) == seq!['&'] + xml_unescaped(es.skip(5)));
            assert(seq!['&'] + rest =~= s);
        } else if c == '<' {
            assert(es[1] == 'l');
            assert(!has_prefix(es, ent_amp())) by {
                if has_prefix(es, ent_amp()) {
                    assert(es.take(5)[1] == es[1]);
                    assert(false);
                }
            }
            assert(has_prefix(es, ent_lt()));
            assert(xml_unescaped(es) == seq!['<'] + xml_unescaped(es.skip(4)));
            assert(seq!['<'] + rest =~= s);
        } else if c == '>' {
            assert(es[1] == 'g');
            assert(!has_prefix(es, ent_amp())) by {
                if has_prefix(es, ent_amp()) {
                    assert(es.take(5)[1] == es[1]);
                    assert(false);
                }
            }
            assert(!has_prefix(es, ent_lt())) by {
                if has_prefix(es, ent_lt()) {
                    assert(es.take(4)[1] == es[1]);
                    assert(false);
                }
            }
            assert(has_prefix(es, ent_gt()));
            assert(xml_unescaped(es) == seq!['>'] + xml_unescaped(es.skip(4)));
            assert(seq!['>'] + rest =~= s);
        } else if c == '"' {
            assert(es[1] == 'q');
            assert(!has_prefix(es, ent_amp())) by {
                if has_prefix(es, ent_amp()) {
                    assert(es.take(5)[1] == es[1]);
                    assert(false);
                }
            }
            assert(!has_prefix(es, ent_lt())) by {
                if has_prefix(es, ent_lt()) {
                    assert(es.take(4)[1] == es[1]);
                    assert(false);
                }
            }
            assert(!has_prefix(es, ent_gt())) by {
                if has_prefix(es, ent_gt()) {
                    assert(es.take(4)[1] == es[1]);
                    assert(false);
                }
            }
            assert(has_prefix(es, ent_quot()));
            assert(xml_unescaped(es) == seq!['"'] + xml_unescaped(es.skip(6)));
            assert(seq!['"'] + rest =~= s);
        } else if c == '\'' {
            assert(es[1] == 'a' && es[2] == 'p');
            assert(!has_prefix(es, ent_amp())) by {
                if has_prefix(es, ent_amp()) {
                    assert(es.take(5)[2] == es[2]);
                    assert(false);
                }
            }
            assert(!has_prefix(es, ent_lt())) by {
                if has_prefix(es, ent_lt()) {
                    assert(es.take(4)[1] == es[1]);
                    assert(false);
                }
            }
            assert(!has_prefix(es, ent_gt())) by {
                if has_prefix(es, ent_gt()) {
                    assert(es.take(4)[1] == es[1]);
                    assert(false);
                }
            }
            assert(!has_prefix(es, ent_quot())) by {
                if has_prefix(es, ent_quot()) {
                    assert(es.take(6)[1] == es[1]);
                    assert(false);
                }
            }
            assert(has_prefix(es, ent_apos()));
            assert(xml_unescaped(es) == seq!['\''] + xml_unescaped(es.skip(6)));
            assert(seq!['\''] + rest =~= s);
        } else {
            assert(es[0] == c);
            assert(!has_prefix(es, ent_amp())) by {
                if has_prefix(es, ent_amp()) {
                    assert(es.take(5)[0] == es[0]);
                    assert(false);
                }
            }
            assert(!has_prefix(es, ent_lt())) by {
                if has_prefix(es, ent_lt()) {
                    assert(es.take(4)[0] == es[0]);
                    assert(false);
                }
            }
            assert(!has_prefix(es, ent_gt())) by {
                if has_prefix(es, ent_gt()) {
                    assert(es.take(4)[0] == es[0]);
                    assert(false);
                }
            }
            assert(!has_prefix(es, ent_quot())) by {
                if has_prefix(es, ent_quot()) {
                    assert(es.take(6)[0] == es[0]);
                    assert(false);
                }
            }
            assert(!has_prefix(es, ent_apos())) by {
                if has_prefix(es, ent_apos()) {
                    assert(es.take(6)[0] == es[0]);
                    assert(false);
                }
            }
            assert(xml_unescaped(es) == seq![c] + xml_unescaped(es.skip(1)));
            assert(es.skip(1) == t) by {
                assert(e =~= seq![c]);
                assert(es.skip(1) =~= t);
            }
        }
    }
}

/// Entity-escapes one text field for embedding in the document.
pub fn escape_xml(s: &str) -> (r: String)
    ensures
        r@ == xml_escaped(s@),
{
    let n = s.unicode_len();
    let mut r = String::new();
    let mut i: usize = 0;
    while i < n
        invariant
            i <= n,
            n == s@.len(),
            r@ == xml_escaped(s@.take(i as int)),
        decreases n - i,
    {
        let c = s.get_char(i);
        if c == '&' {
            r.append("&amp;");
            proof {
                reveal_strlit("&amp;");
                assert("&amp;"@ =~= ent_amp());
            }
        } else if c == '<' {
            r.append("&lt;");
            proof {
                reveal_strlit("&lt;");
                assert("&lt;"@ =~= ent_lt());
            }
        } else if c == '>' {
            r.append("&gt;");
            proof {
                reveal_strlit("&gt;");
                assert("&gt;"@ =~= ent_gt());
            }
        } else if c == '"' {
            r.append("&quot;");
            proof {
                reveal_strlit("&quot;");
                assert("&quot;"@ =~= ent_quot());
            }
        } else if c == '\'' {
            r.append("&apos;");
            proof {
                reveal_strlit("&apos;");
                assert("&apos;"@ =~= ent_apos());
            }
        } else {
            let piece = s.substring_char(i, i + 1);
            r.append(piece);
            proof {
                assert(piece@ =~= seq![c]);
            }
        }
        proof {
            assert(s@.take(i + 1).drop_last() =~= s@.take(i as int));
            assert(s@.take(i + 1).last() == s@[i as int]);
            assert(r@ =~= xml_escaped(s@.take(i + 1)));
        }
        i += 1;
    }
    proof {
        assert(s@.take(n as int) =~= s@);
    }
    r
}

/// One self-closing category element carrying the escaped term.
pub open spec fn category_element(term: Seq<char>) -> Seq<char> {
    "<category term=\""@ + xml_escaped(term) + "\" />"@
}

/// The category elements, one per term, in metadata order, no deduplication,
/// concatenated with nothing in between.
pub open spec fn category_elements(terms: Seq<Seq<char>>) -> Seq<char>
    decreases terms.len(),
{
    if terms.len() == 0 {
        Seq::empty()
    } else {
        category_elements(terms.drop_last()) + category_element(terms.last())
    }
}

/// The whole entry document for one article: XML declaration, the entry root
/// with the Atom and application-control namespaces, then exactly one title,
/// the static author placeholder, exactly one content block typed as
/// Markdown, the category elements in order, and exactly one control block
/// holding the draft and preview tokens.
pub open spec fn entry_document(
    title: Seq<char>,
    body: Seq<char>,
    categories: Seq<Seq<char>>,
    draft: Seq<char>,
    preview: Seq<char>,
) -> Seq<char> {
    "<?xml version=\"1.0\" encoding=\"utf-8\"?>\n<entry xmlns=\"http://www.w3.org/2005/Atom\"\n       xmlns:app=\"http://www.w3.org/2007/app\">\n  <title>"@
        + xml_escaped(title)
        + "</title>\n  <author><name>name</name></author>\n  <content type=\"text/x-markdown\">\n"@
        + xml_escaped(body) + "\n  </content>\n  "@ + category_elements(categories)
        + "\n  <app:control>\n    <app:draft>"@ + xml_escaped(draft)
        + "</app:draft>\n    <app:preview>"@ + xml_escaped(preview)
        + "</app:preview>\n  </app:control>\n</entry>"@
}

/// Renders one article into its entry document. Total: every article renders,
/// and the result is determined by the article's field values alone.
pub fn render(content: &Content) -> (r: String)
    ensures
        r@ == entry_document(
            content.config.title@,
            content.body@,
            category_views(content.config.category@),
            content.config.draft@,
            content.config.preview@,
        ),
{
    let ghost cv = category_views(content.config.category@);
    let n = content.config.category.len();
    let mut cats = String::new();
    let mut i: usize = 0;
    while i < n
        invariant
            i <= n,
            n == content.config.category.len(),
            cv == category_views(content.config.category@),
            cats@ == category_elements(cv.take(i as int)),
        decreases n - i,
    {
        let term = escape_xml(content.config.category[i].as_str());
        cats.append("<category term=\"");
        cats.append(term.as_str());
        cats.append("\" />");
        proof {
            assert(cv[i as int] == content.config.category@[i as int]@);
            assert(cv.take(i + 1).drop_last() =~= cv.take(i as int));
            assert(cv.take(i + 1).last() == cv[i as int]);
            assert(cats@ =~= category_elements(cv.take(i + 1)));
        }
        i += 1;
    }
    proof {
        assert(cv.take(n as int) =~= cv);
    }
    let mut r = String::new();
    r.append(
        "<?xml version=\"1.0\" encoding=\"utf-8\"?>\n<entry xmlns=\"http://www.w3.org/2005/Atom\"\n       xmlns:app=\"http://www.w3.org/2007/app\">\n  <title>",
    );
    let title = escape_xml(content.config.title.as_str());
    r.append(title.as_str());
    r.append(
        "</title>\n  <author><name>name</name></author>\n  <content type=\"text/x-markdown\">\n",
    );
    let body = escape_xml(content.body.as_str());
    r.append(body.as_str());
    r.append("\n  </content>\n  ");
    r.append(cats.as_str());
    r.append("\n  <app:control>\n    <app:draft>");
    let draft = escape_xml(content.config.draft.as_str());
    r.append(draft.as_str());
    r.append("</app:draft>\n    <app:preview>");
    let preview = escape_xml(content.config.preview.as_str());
    r.append(preview.as_str());
    r.append("</app:preview>\n  </app:control>\n</entry>");
    proof {
        assert(r@ =~= entry_document(
            content.config.title@,
            content.body@,
            cv,
            content.config.draft@,
            content.config.preview@,
        ));
    }
    r
}

/// Rendering is a pure function of the article: two rendered documents of
/// articles whose field values agree are byte-identical.
pub proof fn lemma_render_deterministic(a: &Content, b: &Content, ra: &String, rb: &String)
    requires
        a.body@ == b.body@,
        a.config.title@ == b.config.title@,
        a.config.draft@ == b.config.draft@,
        a.config.preview@ == b.config.preview@,
        category_views(a.config.category@) == category_views(b.config.category@),
        ra@ == entry_document(
            a.config.title@,
            a.body@,
            category_views(a.config.category@),
            a.config.draft@,
            a.config.preview@,
        ),
        rb@ == entry_document(
            b.config.title@,
            b.body@,
            category_views(b.config.category@),
            b.config.draft@,
            b.config.preview@,
        ),
    ensures
        ra@ == rb@,
{
}

} // verus!
