//! Library-wide laws, stated and proved once.
//!
//! Each proof function here records a guarantee that relates several parts
//! of the library, over the same spec functions the public contracts use.

use vstd::prelude::*;

use crate::builder::{
    amount_row_seq, cols_of, init_seq, item_seq, subtotal_seq, total_seq, BuilderView,
};
use crate::money::{parsed_money, Money};
use crate::template::{
    spec_apply_element, spec_render, Element, ReceiptTemplate, TemplateErrorView,
};

verus! {

/// A line item with a discount of zero (or less) renders byte-identically
/// to the same item with no discount at all: the discount branch is taken
/// only for strictly positive amounts.
pub proof fn lemma_item_zero_discount(
    name: Seq<char>,
    qty: int,
    unit_price: Money,
    d: Money,
    cols: nat,
    cur: Seq<char>,
    disc_lbl: Seq<char>,
)
    requires
        d.mantissa <= 0,
    ensures
        item_seq(name, qty, unit_price, Some(d), cols, cur, disc_lbl) == item_seq(
            name,
            qty,
            unit_price,
            None,
            cols,
            cur,
            disc_lbl,
        ),
{
}

/// Rendering is deterministic: the bytes of a render are a function of the
/// document alone, so any two results that `render`'s contract pins to the
/// same document are equal. (`render`'s postcondition pins every result to
/// `spec_render` of its document; no outside state enters the computation.)
pub proof fn lemma_render_deterministic(
    t: ReceiptTemplate,
    r1: Result<Seq<u8>, TemplateErrorView>,
    r2: Result<Seq<u8>, TemplateErrorView>,
)
    requires
        r1 == spec_render(t),
        r2 == spec_render(t),
    ensures
        r1 == r2,
{
}

/// Behavioral parity between the template interpreter and the fluent
/// builder: an element applied by the interpreter appends exactly the bytes
/// the corresponding builder call appends. Stated here for the composite
/// receipt elements; the remaining elements are single fixed instructions
/// whose equations read the same way.
#[verifier::rlimit(100)]
#[verifier::spinoff_prover]
pub proof fn lemma_template_builder_parity(v: BuilderView, e: Element)
    ensures
        e matches Element::Init ==> spec_apply_element(v, e) == Ok::<
            BuilderView,
            TemplateErrorView,
        >(crate::template::appended(v, init_seq())),
        e matches Element::Total { amount } ==> (parsed_money(amount@) matches Ok(a)
            ==> spec_apply_element(v, e) == Ok::<BuilderView, TemplateErrorView>(
            crate::template::appended(v, total_seq(a, cols_of(v), v.currency, v.labels.total)),
        )),
        e matches Element::Subtotal { amount } ==> (parsed_money(amount@) matches Ok(a)
            ==> spec_apply_element(v, e) == Ok::<BuilderView, TemplateErrorView>(
            crate::template::appended(
                v,
                subtotal_seq(a, cols_of(v), v.currency, v.labels.subtotal_ht, v.labels.excl_tax_note),
            ),
        )),
        e matches Element::Received { amount } ==> (parsed_money(amount@) matches Ok(a)
            ==> spec_apply_element(v, e) == Ok::<BuilderView, TemplateErrorView>(
            crate::template::appended(
                v,
                amount_row_seq(a, cols_of(v), v.currency, v.labels.received),
            ),
        )),
        e matches Element::Change { amount } ==> (parsed_money(amount@) matches Ok(a)
            ==> spec_apply_element(v, e) == Ok::<BuilderView, TemplateErrorView>(
            crate::template::appended(
                v,
                amount_row_seq(a, cols_of(v), v.currency, v.labels.change),
            ),
        )),
        e matches Element::Item { name, qty, unit_price, discount } ==> (discount is None
            ==> (parsed_money(unit_price@) matches Ok(p) ==> spec_apply_element(v, e) == Ok::<
            BuilderView,
            TemplateErrorView,
        >(
            crate::template::appended(
                v,
                item_seq(
                    name@,
                    qty as int,
                    p,
                    None,
                    cols_of(v),
                    v.currency,
                    v.labels.item_discount,
                ),
            ),
        ))),
{
    reveal(crate::template::spec_apply_element);
    match e {
        Element::Total { amount } => {
            match parsed_money(amount@) {
                Ok(a) => {
                    assert(spec_apply_element(v, e) == Ok::<BuilderView, TemplateErrorView>(
                        crate::template::appended(
                            v,
                            total_seq(a, cols_of(v), v.currency, v.labels.total),
                        ),
                    ));
                },
                Err(_) => {},
            }
        },
        Element::Subtotal { amount } => {
            match parsed_money(amount@) {
                Ok(a) => {
                    assert(spec_apply_element(v, e) == Ok::<BuilderView, TemplateErrorView>(
                        crate::template::appended(
                            v,
                            subtotal_seq(
                                a,
                                cols_of(v),
                                v.currency,
                                v.labels.subtotal_ht,
                                v.labels.excl_tax_note,
                            ),
                        ),
                    ));
                },
                Err(_) => {},
            }
        },
        Element::Received { amount } => {
            match parsed_money(amount@) {
                Ok(a) => {
                    assert(spec_apply_element(v, e) == Ok::<BuilderView, TemplateErrorView>(
                        crate::template::appended(
                            v,
                            amount_row_seq(a, cols_of(v), v.currency, v.labels.received),
                        ),
                    ));
                },
                Err(_) => {},
            }
        },
        Element::Change { amount } => {
            match parsed_money(amount@) {
                Ok(a) => {
                    assert(spec_apply_element(v, e) == Ok::<BuilderView, TemplateErrorView>(
                        crate::template::appended(
                            v,
                            amount_row_seq(a, cols_of(v), v.currency, v.labels.change),
                        ),
                    ));
                },
                Err(_) => {},
            }
        },
        _ => {},
    }
}

} // verus!
