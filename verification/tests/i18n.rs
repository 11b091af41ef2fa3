use thermoprint::i18n::Language;

#[test]
fn all_languages_have_non_empty_labels() {
    for lang in [
        Language::Fr,
        Language::En,
        Language::Es,
        Language::Pt,
        Language::Ar,
        Language::Wo,
    ] {
        let l = lang.labels();
        assert!(!l.subtotal_ht.is_empty());
        assert!(!l.total.is_empty());
        assert!(!l.thank_you.is_empty());
    }
}
