use orbita::base::body::{Element, ElementCategories};

#[test]
fn alkali_metals() {
    for e in [Element::Li, Element::Na, Element::K, Element::Rb, Element::Cs, Element::Fr] {
        assert_eq!(ElementCategories::from(e), ElementCategories::AlkaliMetal);
    }
}

#[test]
fn alkaline_earth_metals() {
    for e in [Element::Be, Element::Mg, Element::Ca, Element::Sr, Element::Ba, Element::Ra] {
        assert_eq!(ElementCategories::from(e), ElementCategories::AlkalineEarthMetal);
    }
}

#[test]
fn lanthanides_and_actinides() {
    assert_eq!(ElementCategories::from(Element::La), ElementCategories::Lanthanides);
    assert_eq!(ElementCategories::from(Element::Gd), ElementCategories::Lanthanides);
    assert_eq!(ElementCategories::from(Element::Lu), ElementCategories::Lanthanides);
    assert_eq!(ElementCategories::from(Element::Ac), ElementCategories::Actinide);
    assert_eq!(ElementCategories::from(Element::U), ElementCategories::Actinide);
    assert_eq!(ElementCategories::from(Element::Lr), ElementCategories::Actinide);
}

#[test]
fn transition_metals() {
    for e in [Element::Sc, Element::Fe, Element::Zn, Element::Y, Element::Ag, Element::Hf, Element::Au, Element::Hg, Element::Rf, Element::Cn] {
        assert_eq!(ElementCategories::from(e), ElementCategories::TransitionMetal);
    }
}

#[test]
fn main_group_categories() {
    assert_eq!(ElementCategories::from(Element::H), ElementCategories::Nonmetal);
    assert_eq!(ElementCategories::from(Element::Se), ElementCategories::Nonmetal);
    assert_eq!(ElementCategories::from(Element::Al), ElementCategories::PostTransitionMetal);
    assert_eq!(ElementCategories::from(Element::Lv), ElementCategories::PostTransitionMetal);
    assert_eq!(ElementCategories::from(Element::F), ElementCategories::Halogen);
    assert_eq!(ElementCategories::from(Element::Ts), ElementCategories::Halogen);
    assert_eq!(ElementCategories::from(Element::B), ElementCategories::Metalloid);
    assert_eq!(ElementCategories::from(Element::Po), ElementCategories::Metalloid);
    assert_eq!(ElementCategories::from(Element::He), ElementCategories::NobleGas);
    assert_eq!(ElementCategories::from(Element::Og), ElementCategories::NobleGas);
}

#[test]
fn into_goes_through_from() {
    let c: ElementCategories = Element::Kr.into();
    assert_eq!(c, ElementCategories::NobleGas);
}

#[test]
fn elements_are_ordered_by_atomic_number() {
    assert!(Element::H < Element::He);
    assert!(Element::Fe < Element::Co);
    assert!(Element::Ts < Element::Og);
}
