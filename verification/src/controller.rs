//! The mediator between the address editor and the decomposed field
//! editors.
//!
//! An edit on either side is revalidated and translated into instructions
//! for the presentation layer: per-field validity flags, plus the text to
//! write into the opposite side when every input involved is valid. A
//! controller-owned re-entrancy guard makes the edits that those writes
//! themselves trigger fall out as no-ops, so propagation never feeds back
//! into the originating field.

use crate::codec::{
    compose, compose_spec, decompose_spec, is_canonical, parse_and_decompose, parse_field,
    spec_parse_address, spec_parse_field, to_dec_string, to_hex_string, va_range_of_selector,
    DecomposedAddress, VaRange,
};
use crate::digits::{dec_seq_of, hex_seq_of, is_hex_digit, lemma_dec_seq_of_value,
    lemma_hex_seq_of_value};
use vstd::prelude::*;

verus! {

/// The editable fields the presentation layer owns.
#[derive(Clone, Copy, PartialEq, Eq, Structural, Debug)]
pub enum FieldId {
    Address,
    VaRangeSelector,
    L3,
    L2,
    L1,
    L0,
    Offset,
}

/// One validity flag per editable field; the presentation layer shows an
/// error indicator on each field whose flag is false.
#[derive(Clone, Copy, PartialEq, Eq, Structural, Debug)]
pub struct FieldValidity {
    pub address: bool,
    pub va_range: bool,
    pub l3: bool,
    pub l2: bool,
    pub l1: bool,
    pub l0: bool,
    pub offset: bool,
}

impl FieldValidity {
    /// Every field valid: the state before any edit arrives.
    pub open spec fn spec_all_valid() -> FieldValidity {
        FieldValidity {
            address: true,
            va_range: true,
            l3: true,
            l2: true,
            l1: true,
            l0: true,
            offset: true,
        }
    }
}

/// What an address edit asks the presentation layer to do.
#[derive(Clone, Copy, Debug)]
pub struct AddressEditOutcome {
    /// Whether the address text parsed and was canonical.
    pub address_valid: bool,
    /// On success, the record whose fields replace the decomposed editors'
    /// contents; on failure, nothing — the decomposed side is left alone.
    pub decomposed: Option<DecomposedAddress>,
}

/// What a decomposed-field edit asks the presentation layer to do.
#[derive(Clone, Debug)]
pub struct FieldEditOutcome {
    /// The validity of every field after the edit.
    pub validity: FieldValidity,
    /// When every decomposed input is valid, the hexadecimal text that
    /// replaces the address editor's contents; otherwise nothing — the
    /// address editor is left alone.
    pub address_text: Option<String>,
}

/// The decimal texts that display a decomposed record, one per editor.
#[derive(Clone, Debug)]
pub struct FieldTexts {
    pub va_range: VaRange,
    pub l3: String,
    pub l2: String,
    pub l1: String,
    pub l0: String,
    pub offset: String,
}

/// The outcome of an address edit: nothing valid unless the text parses to
/// a canonical address, in which case its decomposition is handed over.
pub open spec fn address_edit_outcome_spec(t: Seq<char>) -> AddressEditOutcome {
    match spec_parse_address(t) {
        Option::None => AddressEditOutcome { address_valid: false, decomposed: Option::None },
        Option::Some(a) => if is_canonical(a) {
            AddressEditOutcome { address_valid: true, decomposed: Option::Some(decompose_spec(a)) }
        } else {
            AddressEditOutcome { address_valid: false, decomposed: Option::None }
        },
    }
}

/// How an address edit moves the validity flags: success marks everything
/// valid; failure marks only the address field invalid and leaves the
/// decomposed fields' flags as they were.
pub open spec fn address_edit_validity_spec(v: FieldValidity, t: Seq<char>) -> FieldValidity {
    if address_edit_outcome_spec(t).address_valid {
        FieldValidity::spec_all_valid()
    } else {
        FieldValidity { address: false, ..v }
    }
}

/// The record denoted by the decomposed editors' current contents, if the
/// selector picks a range and every field parses under its bound.
pub open spec fn spec_field_values(
    sel: u32,
    t3: Seq<char>,
    t2: Seq<char>,
    t1: Seq<char>,
    t0: Seq<char>,
    toff: Seq<char>,
) -> Option<DecomposedAddress> {
    if (sel == 0 || sel == 1) && spec_parse_field(t3, 512) is Some && spec_parse_field(t2, 512)
        is Some && spec_parse_field(t1, 512) is Some && spec_parse_field(t0, 512) is Some
        && spec_parse_field(toff, 4096) is Some {
        Option::Some(
            DecomposedAddress {
                va_range: if sel == 1 {
                    VaRange::Top
                } else {
                    VaRange::Bottom
                },
                l3: spec_parse_field(t3, 512)->Some_0 as u16,
                l2: spec_parse_field(t2, 512)->Some_0 as u16,
                l1: spec_parse_field(t1, 512)->Some_0 as u16,
                l0: spec_parse_field(t0, 512)->Some_0 as u16,
                offset: spec_parse_field(toff, 4096)->Some_0 as u16,
            },
        )
    } else {
        Option::None
    }
}

/// How a field edit moves the validity flags: each decomposed field is
/// judged on its own, whatever the others hold, and the address flag is
/// left as it was.
pub open spec fn field_edit_validity_spec(
    v: FieldValidity,
    sel: u32,
    t3: Seq<char>,
    t2: Seq<char>,
    t1: Seq<char>,
    t0: Seq<char>,
    toff: Seq<char>,
) -> FieldValidity {
    FieldValidity {
        address: v.address,
        va_range: sel == 0 || sel == 1,
        l3: spec_parse_field(t3, 512) is Some,
        l2: spec_parse_field(t2, 512) is Some,
        l1: spec_parse_field(t1, 512) is Some,
        l0: spec_parse_field(t0, 512) is Some,
        offset: spec_parse_field(toff, 4096) is Some,
    }
}

/// The selector index that displays a VA range.
pub open spec fn selector_of(r: VaRange) -> u32 {
    match r {
        VaRange::Bottom => 0,
        VaRange::Top => 1,
    }
}

/// The selector index to set on the range chooser for a record.
pub fn selector_index(r: VaRange) -> (sel: u32)
    ensures
        sel == selector_of(r),
{
    match r {
        VaRange::Bottom => 0,
        VaRange::Top => 1,
    }
}

/// The texts that display a record in the decomposed editors, each field in
/// decimal.
pub fn field_texts(d: &DecomposedAddress) -> (t: FieldTexts)
    ensures
        t.va_range == d.va_range,
        t.l3@ == dec_seq_of(d.l3 as nat),
        t.l2@ == dec_seq_of(d.l2 as nat),
        t.l1@ == dec_seq_of(d.l1 as nat),
        t.l0@ == dec_seq_of(d.l0 as nat),
        t.offset@ == dec_seq_of(d.offset as nat),
{
    FieldTexts {
        va_range: d.va_range,
        l3: to_dec_string(d.l3 as u64),
        l2: to_dec_string(d.l2 as u64),
        l1: to_dec_string(d.l1 as u64),
        l0: to_dec_string(d.l0 as u64),
        offset: to_dec_string(d.offset as u64),
    }
}

/// Re-submitting the address text that a field edit just wrote drifts
/// nowhere: the controller accepts it and hands back exactly the record it
/// was composed from, with every field marked valid.
pub proof fn lemma_address_text_round_trip(d: DecomposedAddress)
    requires
        d.wf(),
    ensures
        address_edit_outcome_spec(hex_seq_of(compose_spec(d) as nat)) == (AddressEditOutcome {
            address_valid: true,
            decomposed: Option::Some(d),
        }),
{
    let a = compose_spec(d);
    lemma_hex_seq_of_value(a as nat);
    let s = hex_seq_of(a as nat);
    assert(crate::codec::strip_hex_prefix(s) == s) by {
        if s.len() >= 2 && s[0] == '0' && (s[1] == 'x' || s[1] == 'X') {
            assert(is_hex_digit(s[1]));
        }
    }
    assert(spec_parse_address(s) == Option::Some(a));
    crate::codec::lemma_decompose_compose(d);
}

/// Re-submitting the decimal texts and selector that an address edit just
/// wrote drifts nowhere either: the decomposed editors' contents denote
/// exactly the record the address was decomposed into.
pub proof fn lemma_field_texts_round_trip(d: DecomposedAddress)
    requires
        d.wf(),
    ensures
        spec_field_values(
            selector_of(d.va_range),
            dec_seq_of(d.l3 as nat),
            dec_seq_of(d.l2 as nat),
            dec_seq_of(d.l1 as nat),
            dec_seq_of(d.l0 as nat),
            dec_seq_of(d.offset as nat),
        ) == Option::Some(d),
{
    lemma_dec_seq_of_value(d.l3 as nat);
    lemma_dec_seq_of_value(d.l2 as nat);
    lemma_dec_seq_of_value(d.l1 as nat);
    lemma_dec_seq_of_value(d.l0 as nat);
    lemma_dec_seq_of_value(d.offset as nat);
}

/// The stateful mediator: it owns the validity flags and the re-entrancy
/// guard, and turns each edit into instructions for the presentation layer.
pub struct SyncController {
    /// Set while the presentation layer applies a returned outcome; edits
    /// dispatched in that window are echoes of the controller's own writes
    /// and are ignored.
    pub propagating: bool,
    /// The validity flag of every field, as last reported.
    pub validity: FieldValidity,
}

impl SyncController {
    /// A controller at rest: nothing propagating, no field marked invalid.
    pub fn new() -> (c: SyncController)
        ensures
            !c.propagating,
            c.validity == FieldValidity::spec_all_valid(),
    {
        SyncController {
            propagating: false,
            validity: FieldValidity {
                address: true,
                va_range: true,
                l3: true,
                l2: true,
                l1: true,
                l0: true,
                offset: true,
            },
        }
    }

    /// Raises the re-entrancy guard; the presentation layer calls this
    /// before applying an outcome's writes.
    pub fn begin_propagation(&mut self)
        ensures
            final(self).propagating,
            final(self).validity == old(self).validity,
    {
        self.propagating = true;
    }

    /// Clears the re-entrancy guard once an outcome's writes are applied.
    pub fn end_propagation(&mut self)
        ensures
            !final(self).propagating,
            final(self).validity == old(self).validity,
    {
        self.propagating = false;
    }

    /// Whether the controller is currently applying its own writes.
    pub fn is_propagating(&self) -> (b: bool)
        ensures
            b == self.propagating,
    {
        self.propagating
    }

    /// Handles an edit of the address text. Echo edits (guard raised) do
    /// nothing; otherwise the text is parsed and decomposed, the validity
    /// flags move as `address_edit_validity_spec` says, and the outcome is
    /// exactly `address_edit_outcome_spec` of the text.
    pub fn on_address_edited(&mut self, text: &str) -> (r: Option<AddressEditOutcome>)
        ensures
            final(self).propagating == old(self).propagating,
            old(self).propagating ==> r is None && *final(self) == *old(self),
            !old(self).propagating ==> r is Some && r->Some_0 == address_edit_outcome_spec(text@)
                && final(self).validity == address_edit_validity_spec(old(self).validity, text@),
    {
        if self.propagating {
            return None;
        }
        match parse_and_decompose(text) {
            Result::Ok(d) => {
                self.validity = FieldValidity {
                    address: true,
                    va_range: true,
                    l3: true,
                    l2: true,
                    l1: true,
                    l0: true,
                    offset: true,
                };
                Some(AddressEditOutcome { address_valid: true, decomposed: Some(d) })
            },
            Result::Err(_) => {
                self.validity.address = false;
                Some(AddressEditOutcome { address_valid: false, decomposed: None })
            },
        }
    }

    /// Handles an edit of the range selector or one of the five decomposed
    /// fields; every decomposed input is revalidated whichever field
    /// changed. Echo edits do nothing; otherwise the validity flags move as
    /// `field_edit_validity_spec` says, and when the inputs denote a record
    /// its composed address is returned as lower-case hexadecimal text —
    /// when any input is invalid the address editor is left alone.
    pub fn on_field_edited(
        &mut self,
        changed: FieldId,
        va_selector: u32,
        l3: &str,
        l2: &str,
        l1: &str,
        l0: &str,
        offset: &str,
    ) -> (r: Option<FieldEditOutcome>)
        ensures
            final(self).propagating == old(self).propagating,
            old(self).propagating ==> r is None && *final(self) == *old(self),
            !old(self).propagating ==> {
                let values = spec_field_values(va_selector, l3@, l2@, l1@, l0@, offset@);
                &&& r is Some
                &&& final(self).validity == field_edit_validity_spec(
                    old(self).validity,
                    va_selector,
                    l3@,
                    l2@,
                    l1@,
                    l0@,
                    offset@,
                )
                &&& r->Some_0.validity == final(self).validity
                &&& (r->Some_0.address_text is Some <==> values is Some)
                &&& (values is Some ==> values->Some_0.wf()
                    && r->Some_0.address_text->Some_0@ == hex_seq_of(
                    compose_spec(values->Some_0) as nat,
                ))
            },
    {
        if self.propagating {
            return None;
        }
        let va = va_range_of_selector(va_selector);
        let p3 = parse_field(l3, 512);
        let p2 = parse_field(l2, 512);
        let p1 = parse_field(l1, 512);
        let p0 = parse_field(l0, 512);
        let poff = parse_field(offset, 4096);
        self.validity = FieldValidity {
            address: self.validity.address,
            va_range: va.is_ok(),
            l3: p3.is_some(),
            l2: p2.is_some(),
            l1: p1.is_some(),
            l0: p0.is_some(),
            offset: poff.is_some(),
        };
        let address_text = match (va, p3, p2, p1, p0, poff) {
            (
                Result::Ok(vr),
                Option::Some(v3),
                Option::Some(v2),
                Option::Some(v1),
                Option::Some(v0),
                Option::Some(vo),
            ) => {
                let d = DecomposedAddress {
                    va_range: vr,
                    l3: v3 as u16,
                    l2: v2 as u16,
                    l1: v1 as u16,
                    l0: v0 as u16,
                    offset: vo as u16,
                };
                let a = compose(&d);
                Some(to_hex_string(a))
            },
            _ => None,
        };
        Some(FieldEditOutcome { validity: self.validity, address_text })
    }
}

} // verus!
