//! The export text: one line with the weight, then one line per placed
//! item — its position truncated to whole pixels and its template's
//! label — in placement order.  An export is only produced while the
//! stored weight text reads as a decimal floating-point literal.

use vstd::prelude::*;
use crate::mode::spec_template_name;
use crate::numfmt::i64_to_string;
use crate::numfmt::spec_idec;
use crate::numfmt::spec_pixels;
use crate::numfmt::to_pixels;
use crate::session::PlacedItem;
use crate::session::Session;

verus! {

/// The export line of one placed item: truncated x, a space, truncated
/// y, a space, the template's label, a newline.
pub open spec fn spec_item_line(it: PlacedItem) -> Seq<char> {
    spec_idec(spec_pixels(it.x as int)) + seq![' '] + spec_idec(spec_pixels(it.y as int))
        + seq![' '] + spec_template_name(it.template as int) + seq!['\n']
}

/// The export lines of a run of placed items, in order.
pub open spec fn spec_export_items(items: Seq<PlacedItem>) -> Seq<char>
    decreases items.len(),
{
    if items.len() == 0 {
        Seq::empty()
    } else {
        spec_export_items(items.drop_last()) + spec_item_line(items.last())
    }
}

/// The whole export text: the weight line, then the item lines.
pub open spec fn spec_export_text(weight: Seq<char>, items: Seq<PlacedItem>) -> Seq<char> {
    weight + seq!['\n'] + spec_export_items(items)
}

/// Appends one item's export line.
fn push_item_line(out: &mut String, it: &PlacedItem)
    requires
        -crate::geom::COORD_LIMIT <= it.x <= crate::geom::COORD_LIMIT,
        -crate::geom::COORD_LIMIT <= it.y <= crate::geom::COORD_LIMIT,
    ensures
        final(out)@ == old(out)@ + spec_item_line(*it),
{
    proof {
        reveal_strlit(" ");
        reveal_strlit("\n");
    }
    let xs = i64_to_string(to_pixels(it.x));
    out.append(xs.as_str());
    out.append(" ");
    let ys = i64_to_string(to_pixels(it.y));
    out.append(ys.as_str());
    out.append(" ");
    let nm = it.name();
    out.append(nm.as_str());
    out.append("\n");
    assert(out@ =~= old(out)@ + spec_item_line(*it));
}

impl Session {
    /// Renders the export text, or nothing while the stored weight does
    /// not read as a decimal floating-point literal.
    pub fn export_text(&self) -> (r: Option<String>)
        requires
            self.wf(),
        ensures
            r is Some <==> self.weight_ok,
            r matches Some(text) ==> text@ == spec_export_text(self.weight@, self.items@),
    {
        if !self.weight_ok {
            return None;
        }
        proof {
            reveal_strlit("\n");
        }
        let mut out = self.weight.clone();
        out.append("\n");
        let mut k: usize = 0;
        proof {
            assert(self.items@.take(0) =~= Seq::<PlacedItem>::empty());
            assert(out@ =~= self.weight@ + seq!['\n'] + spec_export_items(self.items@.take(0)));
        }
        while k < self.items.len()
            invariant
                self.wf(),
                k <= self.items@.len(),
                out@ == self.weight@ + seq!['\n'] + spec_export_items(self.items@.take(k as int)),
            decreases self.items@.len() - k,
        {
            let it = self.items[k];
            push_item_line(&mut out, &it);
            proof {
                assert(self.items@.take(k + 1).drop_last() =~= self.items@.take(k as int));
                assert(self.items@.take(k + 1).last() == self.items@[k as int]);
                assert(out@ =~= self.weight@ + seq!['\n'] + spec_export_items(
                    self.items@.take(k + 1),
                ));
            }
            k += 1;
        }
        proof {
            assert(self.items@.take(self.items@.len() as int) =~= self.items@);
        }
        Some(out)
    }
}

} // verus!
