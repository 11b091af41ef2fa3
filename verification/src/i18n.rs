//! Receipt label translations.
//!
//! The mapping is total: every language has every label, and a label set is
//! never mutated after it is built. Each label has a spec function giving
//! its exact characters per language, so builder contracts can speak of the
//! text that a given language emits.

use vstd::prelude::*;
use vstd::string::StringExecFns;

verus! {

/// Localized receipt label strings.
///
/// All high-level receipt methods (`subtotal_ht`, `taxes`, `total`, …) use
/// these labels.
#[derive(Debug, Clone)]
pub struct ReceiptLabels {
    /// Label for the subtotal excluding tax (e.g. "SUBTOTAL").
    pub subtotal_ht: String,
    /// Parenthetical note below the subtotal (e.g. "(Excl. Tax)").
    pub excl_tax_note: String,
    /// Discount label (e.g. "DISCOUNT").
    pub discount: String,
    /// Tax detail header (e.g. "TAX DETAILS:").
    pub tax_details: String,
    /// Tax-included note (e.g. "included").
    pub tax_included: String,
    /// Additional taxes summary label.
    pub additional_taxes: String,
    /// Grand total label.
    pub total: String,
    /// Amount received label.
    pub received: String,
    /// Change returned label.
    pub change: String,
    /// Served-by label prefix (e.g. "Served by:").
    pub served_by: String,
    /// Thank-you line (e.g. "Thank you for your purchase!").
    pub thank_you: String,
    /// Second thank-you line prefix (e.g. "See you soon at").
    pub see_you_at: String,
    /// Per-item discount prefix (e.g. "Discount:").
    pub item_discount: String,
}

/// Supported receipt languages.
#[derive(Debug, Clone, Copy, PartialEq, Eq, Structural)]
pub enum Language {
    /// French (the default).
    Fr,
    /// English.
    En,
    /// Spanish.
    Es,
    /// Portuguese.
    Pt,
    /// Arabic (Latin-transliterated for printer codepage compatibility).
    Ar,
    /// Wolof.
    Wo,
}

/// The subtotal label of each language.
pub open spec fn subtotal_label(l: Language) -> Seq<char> {
    match l {
        Language::Fr => "SOUS-TOTAL HT"@,
        Language::En => "SUBTOTAL"@,
        Language::Es => "SUBTOTAL"@,
        Language::Pt => "SUBTOTAL"@,
        Language::Ar => "AL-MAJMOU' AL-FER'I"@,
        Language::Wo => "TOLLU NJEG"@,
    }
}

/// The excluding-tax note of each language.
pub open spec fn excl_tax_note_label(l: Language) -> Seq<char> {
    match l {
        Language::Fr => "(Hors TVA)"@,
        Language::En => "(Excl. Tax)"@,
        Language::Es => "(Sin IVA)"@,
        Language::Pt => "(Sem IVA)"@,
        Language::Ar => "(Bidoun Dariba)"@,
        Language::Wo => "(Bu Amul Cero)"@,
    }
}

/// The discount label of each language.
pub open spec fn discount_label(l: Language) -> Seq<char> {
    match l {
        Language::Fr => "REMISE"@,
        Language::En => "DISCOUNT"@,
        Language::Es => "DESCUENTO"@,
        Language::Pt => "DESCONTO"@,
        Language::Ar => "TAKHFID"@,
        Language::Wo => "WANAAGU NJEG"@,
    }
}

/// The tax-details header of each language.
pub open spec fn tax_details_label(l: Language) -> Seq<char> {
    match l {
        Language::Fr => "DETAIL DES TAXES:"@,
        Language::En => "TAX DETAILS:"@,
        Language::Es => "DETALLE DE IMPUESTOS:"@,
        Language::Pt => "DETALHES DOS IMPOSTOS:"@,
        Language::Ar => "TAFASIL AD-DARIBA:"@,
        Language::Wo => "CERON YI:"@,
    }
}

/// The tax-included note of each language.
pub open spec fn tax_included_label(l: Language) -> Seq<char> {
    match l {
        Language::Fr => "incluse"@,
        Language::En => "included"@,
        Language::Es => "incluido"@,
        Language::Pt => "incluido"@,
        Language::Ar => "moudamana"@,
        Language::Wo => "ci biir"@,
    }
}

/// The additional-taxes summary label of each language.
pub open spec fn additional_taxes_label(l: Language) -> Seq<char> {
    match l {
        Language::Fr => "Taxes additionnelles"@,
        Language::En => "Additional taxes"@,
        Language::Es => "Impuestos adicionales"@,
        Language::Pt => "Impostos adicionais"@,
        Language::Ar => "Daraib idafiya"@,
        Language::Wo => "Cero yu nyul"@,
    }
}

/// The grand-total label of each language.
pub open spec fn total_label(l: Language) -> Seq<char> {
    match l {
        Language::Fr => "TOTAL"@,
        Language::En => "TOTAL"@,
        Language::Es => "TOTAL"@,
        Language::Pt => "TOTAL"@,
        Language::Ar => "AL-MAJMOU'"@,
        Language::Wo => "TOLLU"@,
    }
}

/// The amount-received label of each language.
pub open spec fn received_label(l: Language) -> Seq<char> {
    match l {
        Language::Fr => "MONTANT RECU"@,
        Language::En => "AMOUNT RECEIVED"@,
        Language::Es => "MONTO RECIBIDO"@,
        Language::Pt => "VALOR RECEBIDO"@,
        Language::Ar => "AL-MABLAGH AL-MUSTASLAM"@,
        Language::Wo => "XAALIS BU JOTNA"@,
    }
}

/// The change label of each language.
pub open spec fn change_label(l: Language) -> Seq<char> {
    match l {
        Language::Fr => "MONNAIE"@,
        Language::En => "CHANGE"@,
        Language::Es => "CAMBIO"@,
        Language::Pt => "TROCO"@,
        Language::Ar => "AL-BAAQI"@,
        Language::Wo => "CENNGE"@,
    }
}

/// The served-by prefix of each language.
pub open spec fn served_by_label(l: Language) -> Seq<char> {
    match l {
        Language::Fr => "Servi par:"@,
        Language::En => "Served by:"@,
        Language::Es => "Atendido por:"@,
        Language::Pt => "Atendido por:"@,
        Language::Ar => "Khidma min:"@,
        Language::Wo => "Liggeykat bi:"@,
    }
}

/// The thank-you line of each language.
pub open spec fn thank_you_label(l: Language) -> Seq<char> {
    match l {
        Language::Fr => "Merci pour votre confiance!"@,
        Language::En => "Thank you for your purchase!"@,
        Language::Es => "Gracias por su compra!"@,
        Language::Pt => "Obrigado pela sua compra!"@,
        Language::Ar => "Choukran li thiqatikum!"@,
        Language::Wo => "Jere jef ci sanu confiance!"@,
    }
}

/// The see-you-soon prefix of each language.
pub open spec fn see_you_at_label(l: Language) -> Seq<char> {
    match l {
        Language::Fr => "A bientot chez"@,
        Language::En => "See you soon at"@,
        Language::Es => "Hasta pronto en"@,
        Language::Pt => "Ate breve em"@,
        Language::Ar => "Ila al-liqa' fi"@,
        Language::Wo => "Ba beneen yoon ci"@,
    }
}

/// The per-item discount prefix of each language.
pub open spec fn item_discount_label(l: Language) -> Seq<char> {
    match l {
        Language::Fr => "Remise:"@,
        Language::En => "Discount:"@,
        Language::Es => "Descuento:"@,
        Language::Pt => "Desconto:"@,
        Language::Ar => "Takhfid:"@,
        Language::Wo => "Wanaag:"@,
    }
}

/// The mathematical content of a label record: the characters of each label.
pub struct LabelsView {
    /// Subtotal label characters.
    pub subtotal_ht: Seq<char>,
    /// Excluding-tax note characters.
    pub excl_tax_note: Seq<char>,
    /// Discount label characters.
    pub discount: Seq<char>,
    /// Tax-details header characters.
    pub tax_details: Seq<char>,
    /// Tax-included note characters.
    pub tax_included: Seq<char>,
    /// Additional-taxes label characters.
    pub additional_taxes: Seq<char>,
    /// Total label characters.
    pub total: Seq<char>,
    /// Received label characters.
    pub received: Seq<char>,
    /// Change label characters.
    pub change: Seq<char>,
    /// Served-by prefix characters.
    pub served_by: Seq<char>,
    /// Thank-you line characters.
    pub thank_you: Seq<char>,
    /// See-you-soon prefix characters.
    pub see_you_at: Seq<char>,
    /// Per-item discount prefix characters.
    pub item_discount: Seq<char>,
}

impl View for ReceiptLabels {
    type V = LabelsView;

    open spec fn view(&self) -> LabelsView {
        LabelsView {
            subtotal_ht: self.subtotal_ht@,
            excl_tax_note: self.excl_tax_note@,
            discount: self.discount@,
            tax_details: self.tax_details@,
            tax_included: self.tax_included@,
            additional_taxes: self.additional_taxes@,
            total: self.total@,
            received: self.received@,
            change: self.change@,
            served_by: self.served_by@,
            thank_you: self.thank_you@,
            see_you_at: self.see_you_at@,
            item_discount: self.item_discount@,
        }
    }
}

/// The label view of a language: every label's exact characters.
pub open spec fn labels_view(l: Language) -> LabelsView {
    LabelsView {
        subtotal_ht: subtotal_label(l),
        excl_tax_note: excl_tax_note_label(l),
        discount: discount_label(l),
        tax_details: tax_details_label(l),
        tax_included: tax_included_label(l),
        additional_taxes: additional_taxes_label(l),
        total: total_label(l),
        received: received_label(l),
        change: change_label(l),
        served_by: served_by_label(l),
        thank_you: thank_you_label(l),
        see_you_at: see_you_at_label(l),
        item_discount: item_discount_label(l),
    }
}

/// Whether a label set is exactly the one of the given language.
pub open spec fn labels_of(r: LabelsView, l: Language) -> bool {
    r == labels_view(l)
}

/// Field-by-field spelling of `labels_of`, useful when each label is needed
/// on its own.
pub open spec fn labels_of_fields(r: LabelsView, l: Language) -> bool {
    &&& r.subtotal_ht == subtotal_label(l)
    &&& r.excl_tax_note == excl_tax_note_label(l)
    &&& r.discount == discount_label(l)
    &&& r.tax_details == tax_details_label(l)
    &&& r.tax_included == tax_included_label(l)
    &&& r.additional_taxes == additional_taxes_label(l)
    &&& r.total == total_label(l)
    &&& r.received == received_label(l)
    &&& r.change == change_label(l)
    &&& r.served_by == served_by_label(l)
    &&& r.thank_you == thank_you_label(l)
    &&& r.see_you_at == see_you_at_label(l)
    &&& r.item_discount == item_discount_label(l)
}

impl Language {
    /// Get the localized labels for this language. The mapping is total:
    /// every language yields a full label record.
    pub fn labels(self) -> (r: ReceiptLabels)
        ensures
            labels_of(r@, self),
    {
        match self {
            Language::Fr => ReceiptLabels {
                subtotal_ht: "SOUS-TOTAL HT".to_owned(),
                excl_tax_note: "(Hors TVA)".to_owned(),
                discount: "REMISE".to_owned(),
                tax_details: "DETAIL DES TAXES:".to_owned(),
                tax_included: "incluse".to_owned(),
                additional_taxes: "Taxes additionnelles".to_owned(),
                total: "TOTAL".to_owned(),
                received: "MONTANT RECU".to_owned(),
                change: "MONNAIE".to_owned(),
                served_by: "Servi par:".to_owned(),
                thank_you: "Merci pour votre confiance!".to_owned(),
                see_you_at: "A bientot chez".to_owned(),
                item_discount: "Remise:".to_owned(),
            },
            Language::En => ReceiptLabels {
                subtotal_ht: "SUBTOTAL".to_owned(),
                excl_tax_note: "(Excl. Tax)".to_owned(),
                discount: "DISCOUNT".to_owned(),
                tax_details: "TAX DETAILS:".to_owned(),
                tax_included: "included".to_owned(),
                additional_taxes: "Additional taxes".to_owned(),
                total: "TOTAL".to_owned(),
                received: "AMOUNT RECEIVED".to_owned(),
                change: "CHANGE".to_owned(),
                served_by: "Served by:".to_owned(),
                thank_you: "Thank you for your purchase!".to_owned(),
                see_you_at: "See you soon at".to_owned(),
                item_discount: "Discount:".to_owned(),
            },
            Language::Es => ReceiptLabels {
                subtotal_ht: "SUBTOTAL".to_owned(),
                excl_tax_note: "(Sin IVA)".to_owned(),
                discount: "DESCUENTO".to_owned(),
                tax_details: "DETALLE DE IMPUESTOS:".to_owned(),
                tax_included: "incluido".to_owned(),
                additional_taxes: "Impuestos adicionales".to_owned(),
                total: "TOTAL".to_owned(),
                received: "MONTO RECIBIDO".to_owned(),
                change: "CAMBIO".to_owned(),
                served_by: "Atendido por:".to_owned(),
                thank_you: "Gracias por su compra!".to_owned(),
                see_you_at: "Hasta pronto en".to_owned(),
                item_discount: "Descuento:".to_owned(),
            },
            Language::Pt => ReceiptLabels {
                subtotal_ht: "SUBTOTAL".to_owned(),
                excl_tax_note: "(Sem IVA)".to_owned(),
                discount: "DESCONTO".to_owned(),
                tax_details: "DETALHES DOS IMPOSTOS:".to_owned(),
                tax_included: "incluido".to_owned(),
                additional_taxes: "Impostos adicionais".to_owned(),
                total: "TOTAL".to_owned(),
                received: "VALOR RECEBIDO".to_owned(),
                change: "TROCO".to_owned(),
                served_by: "Atendido por:".to_owned(),
                thank_you: "Obrigado pela sua compra!".to_owned(),
                see_you_at: "Ate breve em".to_owned(),
                item_discount: "Desconto:".to_owned(),
            },
            Language::Ar => ReceiptLabels {
                subtotal_ht: "AL-MAJMOU' AL-FER'I".to_owned(),
                excl_tax_note: "(Bidoun Dariba)".to_owned(),
                discount: "TAKHFID".to_owned(),
                tax_details: "TAFASIL AD-DARIBA:".to_owned(),
                tax_included: "moudamana".to_owned(),
                additional_taxes: "Daraib idafiya".to_owned(),
                total: "AL-MAJMOU'".to_owned(),
                received: "AL-MABLAGH AL-MUSTASLAM".to_owned(),
                change: "AL-BAAQI".to_owned(),
                served_by: "Khidma min:".to_owned(),
                thank_you: "Choukran li thiqatikum!".to_owned(),
                see_you_at: "Ila al-liqa' fi".to_owned(),
                item_discount: "Takhfid:".to_owned(),
            },
            Language::Wo => ReceiptLabels {
                subtotal_ht: "TOLLU NJEG".to_owned(),
                excl_tax_note: "(Bu Amul Cero)".to_owned(),
                discount: "WANAAGU NJEG".to_owned(),
                tax_details: "CERON YI:".to_owned(),
                tax_included: "ci biir".to_owned(),
                additional_taxes: "Cero yu nyul".to_owned(),
                total: "TOLLU".to_owned(),
                received: "XAALIS BU JOTNA".to_owned(),
                change: "CENNGE".to_owned(),
                served_by: "Liggeykat bi:".to_owned(),
                thank_you: "Jere jef ci sanu confiance!".to_owned(),
                see_you_at: "Ba beneen yoon ci".to_owned(),
                item_discount: "Wanaag:".to_owned(),
            },
        }
    }
}

} // verus!
