//! Inline native blocks. A block `rust { … }` is rewritten as a call that carries
//! its body before anything is lexed.
use vstd::prelude::*;

use crate::text::{chars_of, dec, index_from, own, size_text};

verus! {

/// The statement that takes the place of a block: a call with the body, encoded,
/// and the line.
pub open spec fn call_text(body: Seq<char>, line: int) -> Seq<char> {
    "__rust_compile(\""@ + body + "\", "@ + dec(line) + ");"@
}

/// The statement that takes the place of a block.
pub fn compile_call(body: &str, line: usize) -> (r: String)
    ensures
        r@ == call_text(body@, line as int),
{
    let mut r: String = own("__rust_compile(\"");
    r.append(body);
    r.append("\", ");
    r.append(size_text(line).as_str());
    r.append(");");
    r
}

/// Whether a text holds the word that a block starts with.
pub open spec fn mentions_block(s: Seq<char>) -> bool {
    index_from(s, "rust"@, 0) >= 0
}

/// Whether a comment starts at `i`.
pub open spec fn opens_at(s: Seq<char>, i: int) -> bool {
    0 <= i && i + 1 < s.len() && s[i] == '/' && s[i + 1] == '*'
}

/// Whether a comment ends at `i`.
pub open spec fn closes_at(s: Seq<char>, i: int) -> bool {
    0 <= i && i + 1 < s.len() && s[i] == '*' && s[i + 1] == '/'
}

/// Whether the rest of a comment, which is open `depth` times at `i`, holds ASCII
/// characters only.
pub open spec fn comment_is_ascii(s: Seq<char>, i: int, depth: int) -> bool
    decreases s.len() - i,
{
    if depth <= 0 || i < 0 || i >= s.len() {
        true
    } else if opens_at(s, i) {
        comment_is_ascii(s, i + 2, depth + 1)
    } else if closes_at(s, i) {
        comment_is_ascii(s, i + 2, depth - 1)
    } else {
        s[i] <= '\x7f' && comment_is_ascii(s, i + 1, depth)
    }
}

/// Whether the blocks of a text can be looked for: comments are stepped through
/// byte by byte, which takes ASCII characters, and nesting is counted in an `i32`.
pub open spec fn rewritable(s: Seq<char>) -> bool {
    s.len() <= i32::MAX && forall|i: int| #[trigger]
        opens_at(s, i) ==> comment_is_ascii(s, i + 2, 1)
}

/// A text with its blocks rewritten.
pub uninterp spec fn desugared(src: Seq<char>) -> Seq<char>;

/// `fusevm::RustSugar::desugar`, with the comments of Java, `compile_call` for the
/// replacement, and blocks that start where a statement can. The result depends on
/// the text alone, and a text without the word `rust` is its own result.
#[verifier::external_body]
fn rewrite(src: &str) -> (r: String)
    requires
        rewritable(src@),
    ensures
        r@ == desugared(src@),
        !mentions_block(src@) ==> r@ == src@,
{
    fusevm::RustSugar {
        keyword: "rust",
        line_comments: &["//"],
        block_comment: Some(("/*", "*/")),
        newline_boundary: false,
        emit: compile_call,
    }.desugar(src)
}

/// The text that is lexed in place of a source text. One whose blocks cannot be
/// looked for is left as it is.
pub open spec fn readied(src: Seq<char>) -> Seq<char> {
    if mentions_block(src) && rewritable(src) {
        desugared(src)
    } else {
        src
    }
}

fn is_comment_ascii(v: &Vec<char>, from: usize) -> (r: bool)
    requires
        from <= v.len(),
        v.len() <= i32::MAX,
    ensures
        r == comment_is_ascii(v@, from as int, 1),
{
    let mut i: usize = from;
    let mut depth: usize = 1;
    while i < v.len() && depth > 0
        invariant
            from <= i <= v.len() <= i32::MAX,
            depth <= 1 + i - from,
            comment_is_ascii(v@, from as int, 1) == comment_is_ascii(v@, i as int, depth as int),
        decreases v.len() - i,
    {
        if i + 1 < v.len() && v[i] == '/' && v[i + 1] == '*' {
            i += 2;
            depth += 1;
        } else if i + 1 < v.len() && v[i] == '*' && v[i + 1] == '/' {
            i += 2;
            depth -= 1;
        } else {
            if v[i] > '\x7f' {
                return false;
            }
            i += 1;
        }
    }
    true
}

fn is_rewritable(v: &Vec<char>) -> (r: bool)
    ensures
        r == rewritable(v@),
{
    if v.len() > i32::MAX as usize {
        return false;
    }
    let mut i: usize = 0;
    while i + 1 < v.len()
        invariant
            i <= v.len() <= i32::MAX,
            forall|k: int| 0 <= k < i && #[trigger] opens_at(v@, k) ==> comment_is_ascii(v@, k + 2, 1),
        decreases v.len() - i,
    {
        if v[i] == '/' && v[i + 1] == '*' {
            if !is_comment_ascii(v, i + 2) {
                assert(opens_at(v@, i as int));
                return false;
            }
        }
        i += 1;
    }
    true
}

/// The text that is lexed in place of a source text: its blocks are rewritten,
/// where they can be looked for.
pub fn ready(src: &str) -> (r: String)
    ensures
        r@ == readied(src@),
{
    let v: Vec<char> = chars_of(src);
    if is_rewritable(&v) {
        rewrite(src)
    } else {
        own(src)
    }
}

} // verus!
