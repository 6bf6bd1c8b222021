//! What every generated XML part shares: the declaration and the escaping
//! of text.

use vstd::prelude::*;
use vstd::string::*;
use vstd::slice::slice_subrange;
use crate::reference::EQUALS;

verus! {

/// The XML declaration, with the line break that follows it.
pub const DECLARATION: &'static str = "<?xml version=\"1.0\" encoding=\"UTF-8\" standalone=\"yes\"?>\n";

pub const AMPERSAND: u8 = 38;

pub const LESS_THAN: u8 = 60;

pub const GREATER_THAN: u8 = 62;

pub const DOUBLE_QUOTE: u8 = 34;

pub const APOSTROPHE: u8 = 39;

/// The declaration that opens every part.
pub open spec fn declaration() -> Seq<u8> {
    DECLARATION.spec_bytes()
}

/// Whether `b` is one of the five bytes that XML text may not hold as they
/// are: `&`, `<`, `>`, `"` and `'`.
pub open spec fn is_markup(b: u8) -> bool {
    b == AMPERSAND || b == LESS_THAN || b == GREATER_THAN || b == DOUBLE_QUOTE || b
        == APOSTROPHE
}

/// One byte as it stands in XML text: the five markup bytes as their
/// entities, every other byte as it is.
pub open spec fn escaped_byte(b: u8) -> Seq<u8> {
    if b == AMPERSAND {
        seq![38u8, 97u8, 109u8, 112u8, 59u8]
    } else if b == LESS_THAN {
        seq![38u8, 108u8, 116u8, 59u8]
    } else if b == GREATER_THAN {
        seq![38u8, 103u8, 116u8, 59u8]
    } else if b == DOUBLE_QUOTE {
        seq![38u8, 113u8, 117u8, 111u8, 116u8, 59u8]
    } else if b == APOSTROPHE {
        seq![38u8, 97u8, 112u8, 111u8, 115u8, 59u8]
    } else {
        seq![b]
    }
}

/// A byte string as it stands in XML text.
pub open spec fn escaped(s: Seq<u8>) -> Seq<u8>
    decreases s.len(),
{
    if s.len() == 0 {
        Seq::empty()
    } else {
        escaped(s.drop_last()) + escaped_byte(s.last())
    }
}

/// Appends `s` as it stands in XML text.
pub fn append_escaped(out: &mut Vec<u8>, s: &[u8])
    ensures
        final(out)@ == old(out)@ + escaped(s@),
{
    let mut i: usize = 0;
    while i < s.len()
        invariant
            i <= s@.len(),
            out@ == old(out)@ + escaped(s@.subrange(0, i as int)),
        decreases s@.len() - i,
    {
        let b = s[i];
        proof {
            assert(s@.subrange(0, i + 1).drop_last() == s@.subrange(0, i as int));
        }
        if b == AMPERSAND {
            out.push(38u8);
            out.push(97u8);
            out.push(109u8);
            out.push(112u8);
            out.push(59u8);
        } else if b == LESS_THAN {
            out.push(38u8);
            out.push(108u8);
            out.push(116u8);
            out.push(59u8);
        } else if b == GREATER_THAN {
            out.push(38u8);
            out.push(103u8);
            out.push(116u8);
            out.push(59u8);
        } else if b == DOUBLE_QUOTE {
            out.push(38u8);
            out.push(113u8);
            out.push(117u8);
            out.push(111u8);
            out.push(116u8);
            out.push(59u8);
        } else if b == APOSTROPHE {
            out.push(38u8);
            out.push(97u8);
            out.push(112u8);
            out.push(111u8);
            out.push(115u8);
            out.push(59u8);
        } else {
            out.push(b);
        }
        assert(out@ == old(out)@ + escaped(s@.subrange(0, i + 1)));
        i += 1;
    }
    assert(s@.subrange(0, i as int) == s@);
}

/// Escaped text holds none of `<`, `>`, `"` and `'`.
pub proof fn lemma_escaped_is_text(s: Seq<u8>)
    ensures
        forall|k: int|
            0 <= k < escaped(s).len() ==> {
                let b = #[trigger] escaped(s)[k];
                b != LESS_THAN && b != GREATER_THAN && b != DOUBLE_QUOTE && b != APOSTROPHE
            },
    decreases s.len(),
{
    if s.len() > 0 {
        lemma_escaped_is_text(s.drop_last());
        let head = escaped(s.drop_last());
        let tail = escaped_byte(s.last());
        assert forall|k: int| 0 <= k < escaped(s).len() implies {
            let b = #[trigger] escaped(s)[k];
            b != LESS_THAN && b != GREATER_THAN && b != DOUBLE_QUOTE && b != APOSTROPHE
        } by {
            if k < head.len() {
                assert(escaped(s)[k] == head[k]);
            } else {
                assert(escaped(s)[k] == tail[k - head.len()]);
            }
        }
    }
}

/// Text that holds none of the five markup bytes stands in a part byte for
/// byte as it is.
pub proof fn lemma_escaped_plain(s: Seq<u8>)
    requires
        forall|k: int| 0 <= k < s.len() ==> !is_markup(#[trigger] s[k]),
    ensures
        escaped(s) == s,
    decreases s.len(),
{
    if s.len() > 0 {
        assert(!is_markup(s[s.len() - 1]));
        assert forall|k: int| 0 <= k < s.drop_last().len() implies !is_markup(
            #[trigger] s.drop_last()[k],
        ) by {
            assert(s.drop_last()[k] == s[k]);
        }
        lemma_escaped_plain(s.drop_last());
        assert(s.drop_last() + seq![s.last()] == s);
    }
}

/// A formula as it stands in a part: without its leading `=`.
pub open spec fn formula_body(formula: Seq<u8>) -> Seq<u8> {
    if formula.len() > 0 && formula[0] == EQUALS {
        formula.subrange(1, formula.len() as int)
    } else {
        formula
    }
}

/// Appends a formula without its leading `=`, escaped.
pub fn append_formula_body(out: &mut Vec<u8>, formula: &[u8])
    ensures
        final(out)@ == old(out)@ + escaped(formula_body(formula@)),
{
    if formula.len() > 0 && formula[0] == EQUALS {
        append_escaped(out, slice_subrange(formula, 1, formula.len()));
    } else {
        append_escaped(out, formula);
    }
}

/// Whether a formula has anything after its leading `=`.
pub fn has_body(formula: &[u8]) -> (r: bool)
    ensures
        r == (formula_body(formula@).len() > 0),
{
    if formula.len() > 0 && formula[0] == EQUALS {
        formula.len() > 1
    } else {
        formula.len() > 0
    }
}

} // verus!
