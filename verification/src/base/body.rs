use vstd::prelude::*;
use vstd::std_specs::convert::FromSpec;

verus! {

/// The chemical elements, in order of atomic number.
#[derive(Debug, Clone, Copy, PartialEq, Eq, PartialOrd, Ord, Hash)]
pub enum Element {
    H,
    He,
    Li,
    Be,
    B,
    C,
    N,
    O,
    F,
    Ne,
    Na,
    Mg,
    Al,
    Si,
    P,
    S,
    Cl,
    Ar,
    K,
    Ca,
    Sc,
    Ti,
    V,
    Cr,
    Mn,
    Fe,
    Co,
    Ni,
    Cu,
    Zn,
    Ga,
    Ge,
    As,
    Se,
    Br,
    Kr,
    Rb,
    Sr,
    Y,
    Zr,
    Nb,
    Mo,
    Tc,
    Ru,
    Rh,
    Pd,
    Ag,
    Cd,
    In,
    Sn,
    Sb,
    Te,
    I,
    Xe,
    Cs,
    Ba,
    La,
    Ce,
    Pr,
    Nd,
    Pm,
    Sm,
    Eu,
    Gd,
    Tb,
    Dy,
    Ho,
    Er,
    Tm,
    Yb,
    Lu,
    Hf,
    Ta,
    W,
    Re,
    Os,
    Ir,
    Pt,
    Au,
    Hg,
    Tl,
    Pb,
    Bi,
    Po,
    At,
    Rn,
    Fr,
    Ra,
    Ac,
    Th,
    Pa,
    U,
    Np,
    Pu,
    Am,
    Cm,
    Bk,
    Cf,
    Es,
    Fm,
    Md,
    No,
    Lr,
    Rf,
    Db,
    Sg,
    Bh,
    Hs,
    Mt,
    Ds,
    Rg,
    Cn,
    Nh,
    Fl,
    Mc,
    Lv,
    Ts,
    Og,
}

impl Element {
    /// The element's atomic number (hydrogen is 1, oganesson is 118).
    pub open spec fn atomic_number(self) -> nat {
        match self {
            Element::H => 1,
            Element::He => 2,
            Element::Li => 3,
            Element::Be => 4,
            Element::B => 5,
            Element::C => 6,
            Element::N => 7,
            Element::O => 8,
            Element::F => 9,
            Element::Ne => 10,
            Element::Na => 11,
            Element::Mg => 12,
            Element::Al => 13,
            Element::Si => 14,
            Element::P => 15,
            Element::S => 16,
            Element::Cl => 17,
            Element::Ar => 18,
            Element::K => 19,
            Element::Ca => 20,
            Element::Sc => 21,
            Element::Ti => 22,
            Element::V => 23,
            Element::Cr => 24,
            Element::Mn => 25,
            Element::Fe => 26,
            Element::Co => 27,
            Element::Ni => 28,
            Element::Cu => 29,
            Element::Zn => 30,
            Element::Ga => 31,
            Element::Ge => 32,
            Element::As => 33,
            Element::Se => 34,
            Element::Br => 35,
            Element::Kr => 36,
            Element::Rb => 37,
            Element::Sr => 38,
            Element::Y => 39,
            Element::Zr => 40,
            Element::Nb => 41,
            Element::Mo => 42,
            Element::Tc => 43,
            Element::Ru => 44,
            Element::Rh => 45,
            Element::Pd => 46,
            Element::Ag => 47,
            Element::Cd => 48,
            Element::In => 49,
            Element::Sn => 50,
            Element::Sb => 51,
            Element::Te => 52,
            Element::I => 53,
            Element::Xe => 54,
            Element::Cs => 55,
            Element::Ba => 56,
            Element::La => 57,
            Element::Ce => 58,
            Element::Pr => 59,
            Element::Nd => 60,
            Element::Pm => 61,
            Element::Sm => 62,
            Element::Eu => 63,
            Element::Gd => 64,
            Element::Tb => 65,
            Element::Dy => 66,
            Element::Ho => 67,
            Element::Er => 68,
            Element::Tm => 69,
            Element::Yb => 70,
            Element::Lu => 71,
            Element::Hf => 72,
            Element::Ta => 73,
            Element::W => 74,
            Element::Re => 75,
            Element::Os => 76,
            Element::Ir => 77,
            Element::Pt => 78,
            Element::Au => 79,
            Element::Hg => 80,
            Element::Tl => 81,
            Element::Pb => 82,
            Element::Bi => 83,
            Element::Po => 84,
            Element::At => 85,
            Element::Rn => 86,
            Element::Fr => 87,
            Element::Ra => 88,
            Element::Ac => 89,
            Element::Th => 90,
            Element::Pa => 91,
            Element::U => 92,
            Element::Np => 93,
            Element::Pu => 94,
            Element::Am => 95,
            Element::Cm => 96,
            Element::Bk => 97,
            Element::Cf => 98,
            Element::Es => 99,
            Element::Fm => 100,
            Element::Md => 101,
            Element::No => 102,
            Element::Lr => 103,
            Element::Rf => 104,
            Element::Db => 105,
            Element::Sg => 106,
            Element::Bh => 107,
            Element::Hs => 108,
            Element::Mt => 109,
            Element::Ds => 110,
            Element::Rg => 111,
            Element::Cn => 112,
            Element::Nh => 113,
            Element::Fl => 114,
            Element::Mc => 115,
            Element::Lv => 116,
            Element::Ts => 117,
            Element::Og => 118,
        }
    }
}

/// The categories into which the periodic table sorts the elements.
#[derive(Debug, Clone, Copy, PartialEq, Eq)]
pub enum ElementCategories {
    AlkaliMetal,
    Lanthanides,
    AlkalineEarthMetal,
    Actinide,
    TransitionMetal,
    Nonmetal,
    PostTransitionMetal,
    Halogen,
    Metalloid,
    NobleGas,
}

/// The category of the element with atomic number `z`, read off the periodic
/// table: the f-block rows (lanthanides 57..=71, actinides 89..=103), the
/// d-block columns 3..=12 of periods 4 to 7, and the named main-group sets.
/// Defined for `1 <= z <= 118`.
pub open spec fn category_of_atomic_number(z: nat) -> ElementCategories {
    if 57 <= z <= 71 {
        ElementCategories::Lanthanides
    } else if 89 <= z <= 103 {
        ElementCategories::Actinide
    } else if (21 <= z <= 30) || (39 <= z <= 48) || (72 <= z <= 80) || (104 <= z <= 112) {
        ElementCategories::TransitionMetal
    } else if z == 3 || z == 11 || z == 19 || z == 37 || z == 55 || z == 87 {
        ElementCategories::AlkaliMetal
    } else if z == 4 || z == 12 || z == 20 || z == 38 || z == 56 || z == 88 {
        ElementCategories::AlkalineEarthMetal
    } else if z == 1 || z == 6 || z == 7 || z == 8 || z == 15 || z == 16 || z == 34 {
        ElementCategories::Nonmetal
    } else if z == 13 || z == 31 || z == 49 || z == 50 || z == 81 || z == 82 || z == 83
        || z == 113 || z == 114 || z == 115 || z == 116 {
        ElementCategories::PostTransitionMetal
    } else if z == 9 || z == 17 || z == 35 || z == 53 || z == 85 || z == 117 {
        ElementCategories::Halogen
    } else if z == 5 || z == 14 || z == 32 || z == 33 || z == 51 || z == 52 || z == 84 {
        ElementCategories::Metalloid
    } else {
        ElementCategories::NobleGas
    }
}

impl From<Element> for ElementCategories {
    fn from(val: Element) -> (res: Self)
        ensures
            res == category_of_atomic_number(val.atomic_number()),
    {
        match val {
            Element::Li | Element::Na | Element::K | Element::Rb | Element::Cs | Element::Fr => ElementCategories::AlkaliMetal,
            Element::La | Element::Ce | Element::Pr | Element::Nd | Element::Pm | Element::Sm | Element::Eu | Element::Gd
            | Element::Tb | Element::Dy | Element::Ho | Element::Er | Element::Tm | Element::Yb | Element::Lu => ElementCategories::Lanthanides,
            Element::Be | Element::Mg | Element::Ca | Element::Sr | Element::Ba | Element::Ra => ElementCategories::AlkalineEarthMetal,
            Element::Ac | Element::Th | Element::Pa | Element::U | Element::Np | Element::Pu | Element::Am | Element::Cm
            | Element::Bk | Element::Cf | Element::Es | Element::Fm | Element::Md | Element::No | Element::Lr => ElementCategories::Actinide,
            Element::Sc | Element::Ti | Element::V | Element::Cr | Element::Mn | Element::Fe | Element::Co | Element::Ni
            | Element::Cu | Element::Zn | Element::Y | Element::Zr | Element::Nb | Element::Mo | Element::Tc | Element::Ru
            | Element::Rh | Element::Pd | Element::Ag | Element::Cd | Element::Hf | Element::Ta | Element::W | Element::Re
            | Element::Os | Element::Ir | Element::Pt | Element::Au | Element::Hg | Element::Rf | Element::Db | Element::Sg
            | Element::Bh | Element::Hs | Element::Mt | Element::Ds | Element::Rg | Element::Cn => ElementCategories::TransitionMetal,
            Element::H | Element::C | Element::N | Element::O | Element::P | Element::S | Element::Se => ElementCategories::Nonmetal,
            Element::Al | Element::Ga | Element::In | Element::Sn | Element::Tl | Element::Pb | Element::Bi | Element::Nh
            | Element::Fl | Element::Mc | Element::Lv => ElementCategories::PostTransitionMetal,
            Element::F | Element::Cl | Element::Br | Element::I | Element::At | Element::Ts => ElementCategories::Halogen,
            Element::B | Element::Si | Element::Ge | Element::As | Element::Sb | Element::Te | Element::Po => ElementCategories::Metalloid,
            Element::He | Element::Ne | Element::Ar | Element::Kr | Element::Xe | Element::Rn | Element::Og => ElementCategories::NobleGas,
        }
    }
}

impl vstd::std_specs::convert::FromSpecImpl<Element> for ElementCategories {
    open spec fn obeys_from_spec() -> bool {
        true
    }

    open spec fn from_spec(v: Element) -> ElementCategories {
        category_of_atomic_number(v.atomic_number())
    }
}

/// Whether `lo <= z <= hi`.
pub open spec fn in_range(z: nat, lo: nat, hi: nat) -> bool {
    lo <= z && z <= hi
}

/// `ElementCategories::from` follows its spec on every element: the spec
/// and the category that `from` computes are the same.
pub proof fn law_from_obeys_spec()
    ensures
        <ElementCategories as FromSpec<Element>>::obeys_from_spec(),
        forall|e: Element|
            #[trigger] ElementCategories::from_spec(e) == category_of_atomic_number(e.atomic_number()),
{
}

/// Every element has an atomic number between 1 and 118, and no two
/// elements share one.
pub proof fn law_atomic_numbers()
    ensures
        forall|e: Element| 1 <= #[trigger] e.atomic_number() <= 118,
        forall|a: Element, b: Element| #[trigger] a.atomic_number() == #[trigger] b.atomic_number() ==> a == b,
{
}

/// `ElementCategories::from` puts an element in `AlkaliMetal` exactly when its
/// atomic number says so: the alkali metals are group 1 without hydrogen: atomic numbers 3, 11, 19, 37, 55 and 87.
pub proof fn law_alkali_metals()
    ensures
        forall|e: Element|
            #![trigger ElementCategories::from_spec(e)]
            (ElementCategories::from_spec(e) == ElementCategories::AlkaliMetal) <==> ({
                let z = e.atomic_number();
                set![3nat, 11, 19, 37, 55, 87].contains(z)
            }),
{
}

/// `ElementCategories::from` puts an element in `AlkalineEarthMetal` exactly when its
/// atomic number says so: the alkaline earth metals are group 2: atomic numbers 4, 12, 20, 38, 56 and 88.
pub proof fn law_alkaline_earth_metals()
    ensures
        forall|e: Element|
            #![trigger ElementCategories::from_spec(e)]
            (ElementCategories::from_spec(e) == ElementCategories::AlkalineEarthMetal) <==> ({
                let z = e.atomic_number();
                set![4nat, 12, 20, 38, 56, 88].contains(z)
            }),
{
}

/// `ElementCategories::from` puts an element in `Lanthanides` exactly when its
/// atomic number says so: the lanthanides are the 4f row, lanthanum to lutetium: atomic numbers 57 to 71.
pub proof fn law_lanthanides()
    ensures
        forall|e: Element|
            #![trigger ElementCategories::from_spec(e)]
            (ElementCategories::from_spec(e) == ElementCategories::Lanthanides) <==> ({
                let z = e.atomic_number();
                in_range(z, 57, 71)
            }),
{
}

/// `ElementCategories::from` puts an element in `Actinide` exactly when its
/// atomic number says so: the actinides are the 5f row, actinium to lawrencium: atomic numbers 89 to 103.
pub proof fn law_actinides()
    ensures
        forall|e: Element|
            #![trigger ElementCategories::from_spec(e)]
            (ElementCategories::from_spec(e) == ElementCategories::Actinide) <==> ({
                let z = e.atomic_number();
                in_range(z, 89, 103)
            }),
{
}

/// `ElementCategories::from` puts an element in `TransitionMetal` exactly when its
/// atomic number says so: the transition metals are groups 3 to 12 of periods 4 to 7 outside the f-block: atomic numbers 21 to 30, 39 to 48, 72 to 80 and 104 to 112.
pub proof fn law_transition_metals()
    ensures
        forall|e: Element|
            #![trigger ElementCategories::from_spec(e)]
            (ElementCategories::from_spec(e) == ElementCategories::TransitionMetal) <==> ({
                let z = e.atomic_number();
                in_range(z, 21, 30) || in_range(z, 39, 48) || in_range(z, 72, 80) || in_range(z, 104, 112)
            }),
{
}

/// `ElementCategories::from` puts an element in `Nonmetal` exactly when its
/// atomic number says so: the reactive nonmetals other than the halogens are hydrogen, carbon, nitrogen, oxygen, phosphorus, sulfur and selenium: atomic numbers 1, 6, 7, 8, 15, 16 and 34.
pub proof fn law_nonmetals()
    ensures
        forall|e: Element|
            #![trigger ElementCategories::from_spec(e)]
            (ElementCategories::from_spec(e) == ElementCategories::Nonmetal) <==> ({
                let z = e.atomic_number();
                set![1nat, 6, 7, 8, 15, 16, 34].contains(z)
            }),
{
}

/// `ElementCategories::from` puts an element in `PostTransitionMetal` exactly when its
/// atomic number says so: the post-transition metals are aluminium, gallium, indium, tin, thallium, lead, bismuth, nihonium, flerovium, moscovium and livermorium: atomic numbers 13, 31, 49, 50, 81, 82, 83 and 113 to 116.
pub proof fn law_post_transition_metals()
    ensures
        forall|e: Element|
            #![trigger ElementCategories::from_spec(e)]
            (ElementCategories::from_spec(e) == ElementCategories::PostTransitionMetal) <==> ({
                let z = e.atomic_number();
                set![13nat, 31, 49, 50, 81, 82, 83].contains(z) || in_range(z, 113, 116)
            }),
{
}

/// `ElementCategories::from` puts an element in `Halogen` exactly when its
/// atomic number says so: the halogens are group 17: atomic numbers 9, 17, 35, 53, 85 and 117.
pub proof fn law_halogens()
    ensures
        forall|e: Element|
            #![trigger ElementCategories::from_spec(e)]
            (ElementCategories::from_spec(e) == ElementCategories::Halogen) <==> ({
                let z = e.atomic_number();
                set![9nat, 17, 35, 53, 85, 117].contains(z)
            }),
{
}

/// `ElementCategories::from` puts an element in `Metalloid` exactly when its
/// atomic number says so: the metalloids are boron, silicon, germanium, arsenic, antimony, tellurium and polonium: atomic numbers 5, 14, 32, 33, 51, 52 and 84.
pub proof fn law_metalloids()
    ensures
        forall|e: Element|
            #![trigger ElementCategories::from_spec(e)]
            (ElementCategories::from_spec(e) == ElementCategories::Metalloid) <==> ({
                let z = e.atomic_number();
                set![5nat, 14, 32, 33, 51, 52, 84].contains(z)
            }),
{
}

/// `ElementCategories::from` puts an element in `NobleGas` exactly when its
/// atomic number says so: the noble gases are group 18: atomic numbers 2, 10, 18, 36, 54, 86 and 118.
pub proof fn law_noble_gases()
    ensures
        forall|e: Element|
            #![trigger ElementCategories::from_spec(e)]
            (ElementCategories::from_spec(e) == ElementCategories::NobleGas) <==> ({
                let z = e.atomic_number();
                set![2nat, 10, 18, 36, 54, 86, 118].contains(z)
            }),
{
}

} // verus!
