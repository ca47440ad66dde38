//! The code generator: turns rewritten CSS text into the text of a module
//! that builds the style sheet at run time.

use crate::digest::{md5_hash, md5_hex};
use crate::escape::{escape_text, json_escape};
use crate::expand::{expand, expand_text, import_function, import_name_for, inners, Marker};
use crate::text::{chars_of, push_str, string_of, views};
use vstd::prelude::*;

verus! {

/// The module from its first line to the opening quote of the CSS string.
pub const MODULE_HEAD: &'static str =
    "export default function styleFactory(options) {\n  var prefix = options.prefix || '';\n  var tag = options.tag || function (tag) { return tag; };\n  var rpx = options.rpx;\n  var host = options.host || 'host-placeholder';\n  var css = [\"";

/// The end of the statement that builds a CSS string.
pub const JOIN_END: &'static str = "\", \"\"].join(\"\");";

/// The statement that builds the host CSS string, up to its opening quote.
pub const HOST_HEAD: &'static str = "var hostStyleText = [\"";

/// What the module does with the host CSS string.
pub const HOST_TAIL: &'static str =
    "\nif (options.hostStyle) {\n    options.hostStyle(hostStyleText);\n} else {\n    css = hostStyleText + css;\n}";

/// The last lines of the module.
pub const MODULE_TAIL: &'static str = "\n  return css;\n}";

/// What the code generator is given.
#[derive(Debug, Clone, Copy)]
pub struct Css2CodeOptions<'a> {
    /// The main CSS text.
    pub css: &'a str,
    /// The CSS text for the host element, if any was produced.
    pub host_css: Option<&'a str>,
}

/// A CSS text escaped, with its class prefix, host and length markers
/// replaced by their code, in this order.
pub open spec fn marked_text(text: Seq<char>) -> Seq<char> {
    expand_text(
        Marker::Rpx,
        expand_text(Marker::Host, expand_text(Marker::Prefix, escape_text(text))),
    )
}

/// The main CSS text as it stands in the module: `marked_text` with the
/// import markers replaced as well.
pub open spec fn main_code(text: Seq<char>) -> Seq<char> {
    expand_text(Marker::Import, marked_text(text))
}

/// The addresses that the import markers of a main CSS text name, one entry
/// for each marker, in the order of the text.
pub open spec fn import_urls(text: Seq<char>) -> Seq<Seq<char>> {
    inners(Marker::Import, marked_text(text))
}

/// `known` with those of `urls` added at its end that it does not hold yet,
/// each once, in the order in which they first come.
pub open spec fn add_distinct(known: Seq<Seq<char>>, urls: Seq<Seq<char>>) -> Seq<Seq<char>>
    decreases urls.len(),
{
    if urls.len() == 0 {
        known
    } else if known.contains(urls[0]) {
        add_distinct(known, urls.skip(1))
    } else {
        add_distinct(known.push(urls[0]), urls.skip(1))
    }
}

/// Adding addresses to a list in which none stands twice gives a list in
/// which none stands twice, and which holds just what the list held and the
/// addresses that were added: every import is declared once.
pub proof fn lemma_add_distinct(known: Seq<Seq<char>>, urls: Seq<Seq<char>>)
    requires
        known.no_duplicates(),
    ensures
        add_distinct(known, urls).no_duplicates(),
        forall|url: Seq<char>| #[trigger]
            add_distinct(known, urls).contains(url) <==> known.contains(url) || urls.contains(url),
    decreases urls.len(),
{
    if urls.len() > 0 {
        let rest = urls.skip(1);
        let next = if known.contains(urls[0]) {
            known
        } else {
            known.push(urls[0])
        };
        assert(next.no_duplicates());
        lemma_add_distinct(next, rest);
        assert forall|url: Seq<char>| #[trigger]
            add_distinct(known, urls).contains(url) <==> known.contains(url) || urls.contains(
                url,
            ) by {
            if urls.contains(url) {
                let i = choose|i: int| 0 <= i < urls.len() && urls[i] == url;
                if i > 0 {
                    assert(rest[i - 1] == url);
                } else {
                    if !known.contains(url) {
                        assert(next[known.len() as int] == url);
                    }
                }
            }
            if rest.contains(url) {
                let i = choose|i: int| 0 <= i < rest.len() && rest[i] == url;
                assert(urls[i + 1] == url);
            }
            if next.contains(url) && !known.contains(url) {
                let i = choose|i: int| 0 <= i < next.len() && next[i] == url;
                assert(i == known.len());
                assert(urls[0] == url);
            }
            if known.contains(url) {
                let i = choose|i: int| 0 <= i < known.len() && known[i] == url;
                assert(next[i] == url);
            }
        }
    }
}

/// The import declaration for one address, given the digest of the address.
pub open spec fn import_line_for(digest: Seq<char>, url: Seq<char>) -> Seq<char> {
    "import "@ + import_name_for(digest) + " from \""@ + url + "\";\n"@
}

/// The import declaration for one address.
pub open spec fn import_line(url: Seq<char>) -> Seq<char> {
    import_line_for(md5_hex(url), url)
}

/// The import declarations for a list of addresses, one line each.
pub open spec fn import_lines(urls: Seq<Seq<char>>) -> Seq<char>
    decreases urls.len(),
{
    if urls.len() == 0 {
        Seq::empty()
    } else {
        import_lines(urls.drop_last()) + import_line(urls.last())
    }
}

/// The statements that build the host CSS string and hand it on, or nothing
/// where there is no host CSS.
pub open spec fn host_block(host_code: Seq<char>) -> Seq<char> {
    if host_code.len() == 0 {
        Seq::empty()
    } else {
        HOST_HEAD@ + host_code + JOIN_END@ + HOST_TAIL@
    }
}

/// The text of the module: the import declarations, then the factory function
/// that builds the CSS string from `css_code` and, where `host_code` is not
/// empty, the host CSS string from it.
pub open spec fn module_text(
    css_code: Seq<char>,
    host_code: Seq<char>,
    urls: Seq<Seq<char>>,
) -> Seq<char> {
    import_lines(urls) + MODULE_HEAD@ + css_code + JOIN_END@ + "\n  "@ + host_block(host_code)
        + MODULE_TAIL@
}

/// The code for the host CSS text of `options`: empty where there is none.
pub open spec fn host_code_of(host_css: Option<&str>) -> Seq<char> {
    match host_css {
        Some(text) => marked_text(text@),
        None => Seq::empty(),
    }
}

/// Escapes a CSS text and replaces its class prefix, host and length markers.
fn mark_text(text: &str) -> (r: Vec<char>)
    ensures
        r@ == marked_text(text@),
{
    let escaped = json_escape(text);
    let chars = chars_of(escaped.as_str());
    let (with_prefix, _) = expand(Marker::Prefix, &chars);
    let (with_host, _) = expand(Marker::Host, &with_prefix);
    let (with_rpx, _) = expand(Marker::Rpx, &with_host);
    with_rpx
}

/// Whether `list` holds a string equal to `item`.
fn holds(list: &Vec<String>, item: &String) -> (r: bool)
    ensures
        r == views(list@).contains(item@),
{
    let mut k: usize = 0;
    while k < list.len()
        invariant
            k <= list.len(),
            forall|j: int| 0 <= j < k ==> list[j]@ != item@,
        decreases list.len() - k,
    {
        if list[k] == *item {
            assert(views(list@)[k as int] == item@);
            return true;
        }
        k += 1;
    }
    false
}

/// Turns the main CSS text into the code that stands between the quotes of
/// the module's CSS string, and adds to `imports` each address that the text
/// imports and `imports` does not hold yet.
pub fn process_text(text: &str, imports: &mut Vec<String>) -> (code: String)
    ensures
        code@ == main_code(text@),
        views(final(imports)@) == add_distinct(views(old(imports)@), import_urls(text@)),
{
    let marked = mark_text(text);
    let (with_imports, found) = expand(Marker::Import, &marked);
    assert(views(found@).skip(0) =~= views(found@));
    let mut k: usize = 0;
    while k < found.len()
        invariant
            k <= found.len(),
            add_distinct(views(imports@), views(found@).skip(k as int)) == add_distinct(
                views(old(imports)@),
                views(found@),
            ),
        decreases found.len() - k,
    {
        let ghost before = imports@;
        let url = string_of(&found[k]);
        proof {
            let rest = views(found@).skip(k as int);
            assert(rest[0] == url@);
            assert(rest.skip(1) =~= views(found@).skip(k + 1));
        }
        if !holds(imports, &url) {
            imports.push(url);
            assert(views(imports@) =~= views(before).push(url@));
        }
        k += 1;
    }
    assert(views(found@).skip(found.len() as int) =~= Seq::empty());
    string_of(&with_imports)
}

/// Turns the host CSS text into the code that stands between the quotes of
/// the module's host CSS string. Import markers stay as they are.
pub fn process_host_text(text: &str) -> (code: String)
    ensures
        code@ == marked_text(text@),
{
    let marked = mark_text(text);
    string_of(&marked)
}

/// The import declaration for the address `url`, given the digest of the
/// address: a line of its own.
pub fn import_declaration(digest: &str, url: &str) -> (line: String)
    ensures
        line@ == import_line_for(digest@, url@),
{
    let mut line = String::from_str("import ");
    line.append(import_function(digest).as_str());
    line.append(" from \"");
    line.append(url);
    line.append("\";\n");
    line
}

/// Puts the module together from the code of its two CSS strings and the
/// addresses that it imports.
pub fn generate_output(css_code: &str, host_css_code: &str, imports: &Vec<String>) -> (code:
    String)
    ensures
        code@ == module_text(css_code@, host_css_code@, views(imports@)),
{
    let mut out: Vec<char> = Vec::new();
    let mut k: usize = 0;
    while k < imports.len()
        invariant
            k <= imports.len(),
            out@ == import_lines(views(imports@).take(k as int)),
        decreases imports.len() - k,
    {
        let ghost before = out@;
        let digest = md5_hash(imports[k].as_str());
        push_str(&mut out, import_declaration(digest.as_str(), imports[k].as_str()).as_str());
        proof {
            let upto = views(imports@).take(k + 1);
            assert(upto.drop_last() =~= views(imports@).take(k as int));
            assert(upto.last() == imports[k as int]@);
            assert(out@ =~= before + import_line(imports[k as int]@));
        }
        k += 1;
    }
    assert(views(imports@).take(imports.len() as int) =~= views(imports@));
    let ghost lines = out@;
    push_str(&mut out, MODULE_HEAD);
    push_str(&mut out, css_code);
    push_str(&mut out, JOIN_END);
    push_str(&mut out, "\n  ");
    let ghost upto_host = out@;
    if !host_css_code.is_empty() {
        push_str(&mut out, HOST_HEAD);
        push_str(&mut out, host_css_code);
        push_str(&mut out, JOIN_END);
        push_str(&mut out, HOST_TAIL);
        assert(out@ =~= upto_host + host_block(host_css_code@));
    } else {
        assert(out@ =~= upto_host + host_block(host_css_code@));
    }
    push_str(&mut out, MODULE_TAIL);
    string_of(&out)
}

/// Generates the module for the given CSS texts.
///
/// The main text is escaped and its markers become breaks in the string
/// concatenation: the class prefix, the host identifier, a call of the unit
/// conversion for each length, and a call of the imported factory for each
/// import. Each distinct imported address gets one import declaration, in the
/// order in which the text first names it. The host text is treated alike,
/// but for imports. Where it is absent or empty the module builds no
/// host string.
pub fn css_to_code(options: Css2CodeOptions<'_>) -> (code: String)
    ensures
        code@ == module_text(
            main_code(options.css@),
            host_code_of(options.host_css),
            add_distinct(Seq::empty(), import_urls(options.css@)),
        ),
{
    let mut imports: Vec<String> = Vec::new();
    assert(views(imports@) =~= Seq::empty());
    let css_code = process_text(options.css, &mut imports);
    let host_css_code = match options.host_css {
        Some(text) => process_host_text(text),
        None => String::new(),
    };
    generate_output(css_code.as_str(), host_css_code.as_str(), &imports)
}

} // verus!
