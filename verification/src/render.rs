//! The section renderer: a feed title or an extracted block sequence becomes
//! a self-contained markup fragment — a minimal document shell holding one
//! heading for a feed, or one element per block, in sequence order, with all
//! text escaped for the output markup.
use vstd::prelude::*;
use vstd::string::*;

use crate::extract::BlockKind;
use crate::extract::BlockV;
use crate::extract::ContentBlock;
use crate::extract::blocks_view;

verus! {

/// How one character is written in the output markup: the five characters
/// with markup meaning become entities, every other character stands as
/// itself.
pub open spec fn esc_char(c: char) -> Seq<char> {
    if c == '&' {
        "&amp;"@
    } else if c == '<' {
        "&lt;"@
    } else if c == '>' {
        "&gt;"@
    } else if c == '"' {
        "&quot;"@
    } else if c == '\'' {
        "&#39;"@
    } else {
        seq![c]
    }
}

/// A text escaped for the output markup, character by character, in order.
pub open spec fn escaped(s: Seq<char>) -> Seq<char>
    decreases s.len(),
{
    if s.len() == 0 {
        Seq::empty()
    } else {
        escaped(s.drop_last()) + esc_char(s.last())
    }
}

/// Relies on `String::push`: it appends exactly the one character.
#[verifier::external_body]
pub(crate) fn push_char(s: &mut String, c: char)
    ensures
        final(s)@ == old(s)@ + seq![c],
{
    s.push(c);
}

/// Escapes a text for the output markup.
pub fn escape_text(s: &str) -> (r: String)
    ensures
        r@ == escaped(s@),
{
    let n = s.unicode_len();
    let mut out = String::new();
    let mut i: usize = 0;
    while i < n
        invariant
            n == s@.len(),
            i <= n,
            out@ == escaped(s@.take(i as int)),
        decreases n - i,
    {
        let c = s.get_char(i);
        if c == '&' {
            out.append("&amp;");
        } else if c == '<' {
            out.append("&lt;");
        } else if c == '>' {
            out.append("&gt;");
        } else if c == '"' {
            out.append("&quot;");
        } else if c == '\'' {
            out.append("&#39;");
        } else {
            push_char(&mut out, c);
        }
        proof {
            assert(s@.take(i as int + 1).drop_last() =~= s@.take(i as int));
            assert(s@.take(i as int + 1).last() == s@[i as int]);
        }
        i += 1;
    }
    proof {
        assert(s@.take(n as int) =~= s@);
    }
    out
}

/// The fixed opening of every rendered fragment: a minimal XHTML shell up to
/// the opening of the body.
pub open spec fn doc_pre() -> Seq<char> {
    "<?xml version=\"1.0\" encoding=\"UTF-8\"?>\n<html xmlns=\"http://www.w3.org/1999/xhtml\" xml:lang=\"en\" lang=\"en\">\n<head>\n</head>\n<body>\n"@
}

/// The fixed closing of every rendered fragment.
pub open spec fn doc_post() -> Seq<char> {
    "</body>\n</html>\n"@
}

fn doc_pre_str() -> (r: &'static str)
    ensures
        r@ == doc_pre(),
{
    "<?xml version=\"1.0\" encoding=\"UTF-8\"?>\n<html xmlns=\"http://www.w3.org/1999/xhtml\" xml:lang=\"en\" lang=\"en\">\n<head>\n</head>\n<body>\n"
}

fn doc_post_str() -> (r: &'static str)
    ensures
        r@ == doc_post(),
{
    "</body>\n</html>\n"
}

/// The element tag a block kind renders as.
pub open spec fn kind_tag(k: BlockKind) -> Seq<char> {
    match k {
        BlockKind::Heading1 => "h1"@,
        BlockKind::Heading2 => "h2"@,
        BlockKind::Heading3 => "h3"@,
        BlockKind::Paragraph => "p"@,
    }
}

fn kind_tag_str(k: BlockKind) -> (r: &'static str)
    ensures
        r@ == kind_tag(k),
{
    match k {
        BlockKind::Heading1 => "h1",
        BlockKind::Heading2 => "h2",
        BlockKind::Heading3 => "h3",
        BlockKind::Paragraph => "p",
    }
}

/// One block rendered as one element: its tag around its escaped text.
pub open spec fn rendered_block(b: BlockV) -> Seq<char> {
    "<"@ + kind_tag(b.0) + ">"@ + escaped(b.1) + "</"@ + kind_tag(b.0) + ">\n"@
}

pub open spec fn rendered_blocks(bs: Seq<BlockV>) -> Seq<char>
    decreases bs.len(),
{
    if bs.len() == 0 {
        Seq::empty()
    } else {
        rendered_blocks(bs.drop_last()) + rendered_block(bs.last())
    }
}

/// A feed title rendered as a self-contained fragment: the shell around one
/// level-one heading holding the escaped title.
pub open spec fn rendered_shell(title: Seq<char>) -> Seq<char> {
    doc_pre() + "<h1>"@ + escaped(title) + "</h1>\n"@ + doc_post()
}

/// A block sequence rendered as a self-contained fragment: the shell around
/// one element per block, in sequence order.
pub open spec fn rendered_fragment(bs: Seq<BlockV>) -> Seq<char> {
    doc_pre() + rendered_blocks(bs) + doc_post()
}

/// Renders a feed title as a self-contained fragment.
pub fn render_shell(title: &str) -> (r: String)
    ensures
        r@ == rendered_shell(title@),
{
    let mut out = String::from_str(doc_pre_str());
    out.append("<h1>");
    let e = escape_text(title);
    out.append(e.as_str());
    out.append("</h1>\n");
    out.append(doc_post_str());
    proof {
        assert(out@ =~= rendered_shell(title@));
    }
    out
}

/// Renders an extracted block sequence as a self-contained fragment, one
/// element per block, in sequence order.
pub fn render_fragment(blocks: &Vec<ContentBlock>) -> (r: String)
    ensures
        r@ == rendered_fragment(blocks_view(blocks@)),
{
    let ghost bs = blocks_view(blocks@);
    let mut out = String::from_str(doc_pre_str());
    let mut i: usize = 0;
    while i < blocks.len()
        invariant
            bs == blocks_view(blocks@),
            i <= blocks@.len(),
            out@ == doc_pre() + rendered_blocks(bs.take(i as int)),
        decreases blocks@.len() - i,
    {
        let b = &blocks[i];
        out.append("<");
        out.append(kind_tag_str(b.kind));
        out.append(">");
        let e = escape_text(b.text.as_str());
        out.append(e.as_str());
        out.append("</");
        out.append(kind_tag_str(b.kind));
        out.append(">\n");
        proof {
            assert(bs.take(i as int + 1).drop_last() =~= bs.take(i as int));
            assert(bs.take(i as int + 1).last() == blocks@[i as int]@);
            assert(out@ =~= doc_pre() + rendered_blocks(bs.take(i as int + 1)));
        }
        i += 1;
    }
    out.append(doc_post_str());
    proof {
        assert(bs.take(blocks@.len() as int) =~= bs);
        assert(out@ =~= rendered_fragment(bs));
    }
    out
}

} // verus!
