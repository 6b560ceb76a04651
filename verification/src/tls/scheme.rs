//! Which signature scheme the client certificate is used with.
use vstd::prelude::*;

verus! {

/// The signature schemes that an elliptic-curve client key can be asked for.
#[derive(Clone, Copy, Debug, PartialEq, Eq, Structural)]
pub enum EcdsaScheme {
    /// ECDSA on NIST P-256 with SHA-256.
    NistP256Sha256,
    /// ECDSA on NIST P-384 with SHA-384.
    NistP384Sha384,
    /// ECDSA on NIST P-521 with SHA-512.
    NistP521Sha512,
}

impl EcdsaScheme {
    /// The number under which TLS registers the scheme.
    pub open spec fn number(self) -> u16 {
        match self {
            EcdsaScheme::NistP256Sha256 => 0x0403,
            EcdsaScheme::NistP384Sha384 => 0x0503,
            EcdsaScheme::NistP521Sha512 => 0x0603,
        }
    }

    /// The number under which TLS registers the scheme.
    pub fn code(self) -> (r: u16)
        ensures
            r == self.number(),
    {
        match self {
            EcdsaScheme::NistP256Sha256 => 0x0403,
            EcdsaScheme::NistP384Sha384 => 0x0503,
            EcdsaScheme::NistP521Sha512 => 0x0603,
        }
    }
}

/// The scheme to take out of an offer: P-384 before P-256 before P-521.
pub open spec fn preferred(offered: Seq<u16>) -> Option<EcdsaScheme> {
    if offered.contains(EcdsaScheme::NistP384Sha384.number()) {
        Some(EcdsaScheme::NistP384Sha384)
    } else if offered.contains(EcdsaScheme::NistP256Sha256.number()) {
        Some(EcdsaScheme::NistP256Sha256)
    } else if offered.contains(EcdsaScheme::NistP521Sha512.number()) {
        Some(EcdsaScheme::NistP521Sha512)
    } else {
        None
    }
}

/// Tells whether `scheme` is offered.
fn is_offered(offered: &[u16], scheme: EcdsaScheme) -> (r: bool)
    ensures
        r == offered@.contains(scheme.number()),
{
    let number = scheme.code();
    let mut i: usize = 0;
    while i < offered.len()
        invariant
            i <= offered@.len(),
            number == scheme.number(),
            forall|k: int| 0 <= k < i ==> offered@[k] != number,
        decreases offered@.len() - i,
    {
        if offered[i] == number {
            return true;
        }
        i = i + 1;
    }
    false
}

/// Takes a scheme out of the server's offer, if there is one for the client key.
pub fn choose_scheme(offered: &[u16]) -> (r: Option<EcdsaScheme>)
    ensures
        r == preferred(offered@),
{
    let preferences: [EcdsaScheme; 3] = [
        EcdsaScheme::NistP384Sha384,
        EcdsaScheme::NistP256Sha256,
        EcdsaScheme::NistP521Sha512,
    ];
    let mut i: usize = 0;
    while i < 3
        invariant
            i <= 3,
            preferences@ == seq![
                EcdsaScheme::NistP384Sha384,
                EcdsaScheme::NistP256Sha256,
                EcdsaScheme::NistP521Sha512,
            ],
            forall|k: int|
                0 <= k < i ==> !offered@.contains((#[trigger] preferences@[k]).number()),
        decreases 3 - i,
    {
        if is_offered(offered, preferences[i]) {
            proof {
                assert(i > 0 ==> !offered@.contains(preferences@[0].number()));
                assert(i > 1 ==> !offered@.contains(preferences@[1].number()));
            }
            return Some(preferences[i]);
        }
        i = i + 1;
    }
    proof {
        assert(!offered@.contains(preferences@[0].number()));
        assert(!offered@.contains(preferences@[1].number()));
        assert(!offered@.contains(preferences@[2].number()));
    }
    None
}

/// Tells whether the client certificate is to be presented: only where the server
/// offers a scheme that the client key can be used with.
pub fn presents_certificate(offered: &[u16]) -> (r: bool)
    ensures
        r == (preferred(offered@) is Some),
{
    choose_scheme(offered).is_some()
}

/// The chosen scheme is one of those offered, and one is chosen wherever a scheme
/// for the client key is offered.
pub proof fn law_choice_is_offered(offered: Seq<u16>, scheme: EcdsaScheme)
    ensures
        preferred(offered) matches Some(chosen) ==> offered.contains(chosen.number()),
        offered.contains(scheme.number()) ==> preferred(offered) is Some,
{
}

/// The order in which schemes are offered does not matter.
pub proof fn law_choice_ignores_order(a: Seq<u16>, b: Seq<u16>)
    requires
        forall|n: u16| a.contains(n) <==> b.contains(n),
    ensures
        preferred(a) == preferred(b),
{
}

/// The choice by number: 0x0503 wherever it is offered, else 0x0403, else 0x0603.
pub proof fn law_choice_by_number(offered: Seq<u16>)
    ensures
        offered.contains(0x0503) ==> preferred(offered) == Some(EcdsaScheme::NistP384Sha384),
        !offered.contains(0x0503) && offered.contains(0x0403) ==> preferred(offered) == Some(
            EcdsaScheme::NistP256Sha256,
        ),
        !offered.contains(0x0503) && !offered.contains(0x0403) && offered.contains(0x0603)
            ==> preferred(offered) == Some(EcdsaScheme::NistP521Sha512),
        !offered.contains(0x0503) && !offered.contains(0x0403) && !offered.contains(0x0603)
            ==> preferred(offered) is None,
{
}

} // verus!
