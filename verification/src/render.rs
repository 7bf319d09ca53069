use vstd::prelude::*;
use crate::entry::Entry;
use crate::form::{ZERO, AMP};

verus! {

/// Markup that opens the page, before the list of entries:
/// "<html><body><ul>".
pub open spec fn page_head() -> Seq<u8> {
    seq![60u8, 104u8, 116u8, 109u8, 108u8, 62u8, 60u8, 98u8, 111u8, 100u8, 121u8, 62u8, 60u8, 117u8, 108u8, 62u8]
}

/// Markup that closes the page, after the list of entries:
/// "</ul></body></html>".
pub open spec fn page_foot() -> Seq<u8> {
    seq![60u8, 47u8, 117u8, 108u8, 62u8, 60u8, 47u8, 98u8, 111u8, 100u8, 121u8, 62u8, 60u8, 47u8, 104u8, 116u8, 109u8, 108u8, 62u8]
}

/// "<li>"
pub open spec fn item_head() -> Seq<u8> {
    seq![60u8, 108u8, 105u8, 62u8]
}

/// ": "
pub open spec fn item_sep() -> Seq<u8> {
    seq![58u8, 32u8]
}

/// "</li>"
pub open spec fn item_foot() -> Seq<u8> {
    seq![60u8, 47u8, 108u8, 105u8, 62u8]
}

/// The decimal digits of `n`, most significant first, as ASCII bytes.
pub open spec fn dec_digits(n: nat) -> Seq<u8>
    decreases n,
{
    if n < 10 {
        seq![(ZERO + n) as u8]
    } else {
        dec_digits(n / 10).push((ZERO + n % 10) as u8)
    }
}

/// How one byte of an entry's text is embedded in markup: the five
/// characters that HTML reserves become character references, every other
/// byte stands for itself.
pub open spec fn escape_byte(b: u8) -> Seq<u8> {
    if b == AMP {
        seq![38u8, 97u8, 109u8, 112u8, 59u8] // "&amp;"
    } else if b == 60 {
        seq![38u8, 108u8, 116u8, 59u8] // "&lt;"
    } else if b == 62 {
        seq![38u8, 103u8, 116u8, 59u8] // "&gt;"
    } else if b == 34 {
        seq![38u8, 113u8, 117u8, 111u8, 116u8, 59u8] // "&quot;"
    } else if b == 39 {
        seq![38u8, 35u8, 120u8, 50u8, 55u8, 59u8] // "&#x27;"
    } else {
        seq![b]
    }
}

/// `s` with every byte escaped for safe embedding in markup.
pub open spec fn escape(s: Seq<u8>) -> Seq<u8>
    decreases s.len(),
{
    if s.len() == 0 {
        Seq::empty()
    } else {
        escape(s.drop_last()) + escape_byte(s.last())
    }
}

/// The markup of one entry: its identifier, a separator, its escaped text,
/// inside a list item.
pub open spec fn item_markup(e: Entry) -> Seq<u8> {
    item_head() + dec_digits(e.id as nat) + item_sep() + escape(e.text@) + item_foot()
}

/// The markup of a sequence of entries, in order.
pub open spec fn items_markup(entries: Seq<Entry>) -> Seq<u8>
    decreases entries.len(),
{
    if entries.len() == 0 {
        Seq::empty()
    } else {
        items_markup(entries.drop_last()) + item_markup(entries.last())
    }
}

/// The whole page: head, one list item per entry in order, foot.
pub open spec fn spec_render(entries: Seq<Entry>) -> Seq<u8> {
    page_head() + items_markup(entries) + page_foot()
}

fn push_page_head(out: &mut Vec<u8>)
    ensures
        final(out)@ == old(out)@ + page_head(),
{
    out.push(60);
    out.push(104);
    out.push(116);
    out.push(109);
    out.push(108);
    out.push(62);
    out.push(60);
    out.push(98);
    out.push(111);
    out.push(100);
    out.push(121);
    out.push(62);
    out.push(60);
    out.push(117);
    out.push(108);
    out.push(62);
    proof {
        assert(out@ =~= old(out)@ + page_head());
    }
}

fn push_page_foot(out: &mut Vec<u8>)
    ensures
        final(out)@ == old(out)@ + page_foot(),
{
    out.push(60);
    out.push(47);
    out.push(117);
    out.push(108);
    out.push(62);
    out.push(60);
    out.push(47);
    out.push(98);
    out.push(111);
    out.push(100);
    out.push(121);
    out.push(62);
    out.push(60);
    out.push(47);
    out.push(104);
    out.push(116);
    out.push(109);
    out.push(108);
    out.push(62);
    proof {
        assert(out@ =~= old(out)@ + page_foot());
    }
}

/// Append the decimal digits of `n`.
fn push_digits(out: &mut Vec<u8>, n: u32)
    ensures
        final(out)@ == old(out)@ + dec_digits(n as nat),
    decreases n,
{
    if n < 10 {
        out.push(ZERO + n as u8);
        proof {
            assert(out@ =~= old(out)@ + dec_digits(n as nat));
        }
    } else {
        push_digits(out, n / 10);
        out.push(ZERO + (n % 10) as u8);
        proof {
            assert(dec_digits(n as nat) == dec_digits(n as nat / 10).push((ZERO + n as nat % 10) as u8));
            assert(out@ =~= old(out)@ + dec_digits(n as nat));
        }
    }
}

/// Append `text` with every reserved character escaped.
fn push_escaped(out: &mut Vec<u8>, text: &Vec<u8>)
    ensures
        final(out)@ == old(out)@ + escape(text@),
{
    let mut i: usize = 0;
    proof {
        assert(text@.take(0) =~= Seq::<u8>::empty());
        assert(escape(text@.take(0)) =~= Seq::<u8>::empty());
        assert(out@ =~= old(out)@ + escape(text@.take(0)));
    }
    while i < text.len()
        invariant
            i <= text@.len(),
            out@ == old(out)@ + escape(text@.take(i as int)),
        decreases text@.len() - i,
    {
        let b = text[i];
        if b == AMP {
            out.push(38);
            out.push(97);
            out.push(109);
            out.push(112);
            out.push(59);
        } else if b == 60 {
            out.push(38);
            out.push(108);
            out.push(116);
            out.push(59);
        } else if b == 62 {
            out.push(38);
            out.push(103);
            out.push(116);
            out.push(59);
        } else if b == 34 {
            out.push(38);
            out.push(113);
            out.push(117);
            out.push(111);
            out.push(116);
            out.push(59);
        } else if b == 39 {
            out.push(38);
            out.push(35);
            out.push(120);
            out.push(50);
            out.push(55);
            out.push(59);
        } else {
            out.push(b);
        }
        proof {
            assert(text@.take(i as int + 1).drop_last() =~= text@.take(i as int));
            assert(text@.take(i as int + 1).last() == b);
            assert(out@ =~= old(out)@ + escape(text@.take(i as int + 1)));
        }
        i += 1;
    }
    proof {
        assert(text@.take(text@.len() as int) =~= text@);
    }
}

/// Append the markup of one entry.
fn push_item(out: &mut Vec<u8>, e: &Entry)
    ensures
        final(out)@ == old(out)@ + item_markup(*e),
{
    out.push(60);
    out.push(108);
    out.push(105);
    out.push(62);
    proof {
        assert(out@ =~= old(out)@ + item_head());
    }
    push_digits(out, e.id);
    out.push(58);
    out.push(32);
    proof {
        assert(out@ =~= old(out)@ + item_head() + dec_digits(e.id as nat) + item_sep());
    }
    push_escaped(out, &e.text);
    out.push(60);
    out.push(47);
    out.push(108);
    out.push(105);
    out.push(62);
    proof {
        assert(out@ =~= old(out)@ + item_markup(*e));
    }
}

/// The rendered page for `entries`: pure in its input, entries in order,
/// each one's text escaped.
pub fn render(entries: &Vec<Entry>) -> (r: Vec<u8>)
    ensures
        r@ == spec_render(entries@),
{
    let mut out: Vec<u8> = Vec::new();
    push_page_head(&mut out);
    let mut i: usize = 0;
    proof {
        assert(entries@.take(0) =~= Seq::<Entry>::empty());
        assert(out@ =~= page_head() + items_markup(entries@.take(0)));
    }
    while i < entries.len()
        invariant
            i <= entries@.len(),
            out@ == page_head() + items_markup(entries@.take(i as int)),
        decreases entries@.len() - i,
    {
        push_item(&mut out, &entries[i]);
        proof {
            assert(entries@.take(i as int + 1).drop_last() =~= entries@.take(i as int));
            assert(entries@.take(i as int + 1).last() == entries@[i as int]);
            assert(out@ =~= page_head() + items_markup(entries@.take(i as int + 1)));
        }
        i += 1;
    }
    push_page_foot(&mut out);
    proof {
        assert(entries@.take(entries@.len() as int) =~= entries@);
    }
    out
}

/// Escaped text is safe to embed in markup: whatever bytes an entry's text
/// holds, its escaped form never holds an unescaped reserved character --
/// no '<', no '>', no '"', no '\''.
pub proof fn lemma_escape_safe(s: Seq<u8>)
    ensures
        forall|j: int| 0 <= j < escape(s).len() ==> #[trigger] escape(s)[j] != 60u8
            && escape(s)[j] != 62u8 && escape(s)[j] != 34u8 && escape(s)[j] != 39u8,
    decreases s.len(),
{
    if s.len() > 0 {
        lemma_escape_safe(s.drop_last());
        assert forall|j: int| 0 <= j < escape(s).len() implies #[trigger] escape(s)[j] != 60u8
            && escape(s)[j] != 62u8 && escape(s)[j] != 34u8 && escape(s)[j] != 39u8 by {
            if j < escape(s.drop_last()).len() {
                assert(escape(s)[j] == escape(s.drop_last())[j]);
            } else {
                assert(escape(s)[j] == escape_byte(s.last())[j - escape(s.drop_last()).len()]);
            }
        }
    }
}

} // verus!
