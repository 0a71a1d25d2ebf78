use vstd::prelude::*;

verus! {

/// The token standards an asset can belong to, with their canonical
/// uppercase wire names.
#[derive(Clone, Copy, Debug, PartialEq, Eq, Structural)]
pub enum AssetType {
    NATIVE,
    ERC20,
    BEP2,
    BEP20,
    SPL,
    ARBITRUM,
    TRC20,
}

/// Whether an asset is a chain's native asset or a token on it.
#[derive(Clone, Copy, Debug, PartialEq, Eq, Structural)]
pub enum AssetSubtype {
    NATIVE,
    TOKEN,
}

/// String equality by view.
fn str_eq(a: &str, b: &str) -> (r: bool)
    ensures
        r == (a@ == b@),
{
    let x: String = a.to_owned();
    let y: String = b.to_owned();
    x == y
}

impl AssetType {
    pub open spec fn spec_str(self) -> Seq<char> {
        match self {
            AssetType::NATIVE => "NATIVE"@,
            AssetType::ERC20 => "ERC20"@,
            AssetType::BEP2 => "BEP2"@,
            AssetType::BEP20 => "BEP20"@,
            AssetType::SPL => "SPL"@,
            AssetType::ARBITRUM => "ARBITRUM"@,
            AssetType::TRC20 => "TRC20"@,
        }
    }

    pub open spec fn spec_from_str(s: Seq<char>) -> Option<AssetType> {
        if s == "NATIVE"@ {
            Some(AssetType::NATIVE)
        } else if s == "ERC20"@ {
            Some(AssetType::ERC20)
        } else if s == "BEP2"@ {
            Some(AssetType::BEP2)
        } else if s == "BEP20"@ {
            Some(AssetType::BEP20)
        } else if s == "SPL"@ {
            Some(AssetType::SPL)
        } else if s == "ARBITRUM"@ {
            Some(AssetType::ARBITRUM)
        } else if s == "TRC20"@ {
            Some(AssetType::TRC20)
        } else {
            None
        }
    }

    /// The asset type a wire name denotes; `None` for any other string.
    pub fn from_str(s: &str) -> (r: Option<AssetType>)
        ensures
            r == AssetType::spec_from_str(s@),
    {
        if str_eq(s, "NATIVE") {
            Some(AssetType::NATIVE)
        } else if str_eq(s, "ERC20") {
            Some(AssetType::ERC20)
        } else if str_eq(s, "BEP2") {
            Some(AssetType::BEP2)
        } else if str_eq(s, "BEP20") {
            Some(AssetType::BEP20)
        } else if str_eq(s, "SPL") {
            Some(AssetType::SPL)
        } else if str_eq(s, "ARBITRUM") {
            Some(AssetType::ARBITRUM)
        } else if str_eq(s, "TRC20") {
            Some(AssetType::TRC20)
        } else {
            None
        }
    }

    /// The canonical wire name of an asset type.
    pub fn as_str(&self) -> (r: &'static str)
        ensures
            r@ == self.spec_str(),
    {
        match self {
            AssetType::NATIVE => "NATIVE",
            AssetType::ERC20 => "ERC20",
            AssetType::BEP2 => "BEP2",
            AssetType::BEP20 => "BEP20",
            AssetType::SPL => "SPL",
            AssetType::ARBITRUM => "ARBITRUM",
            AssetType::TRC20 => "TRC20",
        }
    }
}

/// Round trip: every asset type's wire name parses back to the same asset
/// type.
pub proof fn lemma_asset_type_roundtrip(t: AssetType)
    ensures
        AssetType::spec_from_str(t.spec_str()) == Some(t),
{
    reveal_strlit("NATIVE");
    reveal_strlit("ERC20");
    reveal_strlit("BEP2");
    reveal_strlit("BEP20");
    reveal_strlit("SPL");
    reveal_strlit("ARBITRUM");
    reveal_strlit("TRC20");
    assert("NATIVE"@.len() == 6);
    assert("ERC20"@.len() == 5);
    assert("BEP2"@.len() == 4);
    assert("BEP20"@.len() == 5);
    assert("SPL"@.len() == 3);
    assert("ARBITRUM"@.len() == 8);
    assert("TRC20"@.len() == 5);
    assert("ERC20"@[0] == 'E');
    assert("BEP20"@[0] == 'B');
    assert("TRC20"@[0] == 'T');
    match t {
        AssetType::NATIVE => {
            assert(AssetType::spec_from_str("NATIVE"@) == Some(AssetType::NATIVE));
        },
        AssetType::ERC20 => {
            assert(AssetType::spec_from_str("ERC20"@) == Some(AssetType::ERC20));
        },
        AssetType::BEP2 => {
            assert(AssetType::spec_from_str("BEP2"@) == Some(AssetType::BEP2));
        },
        AssetType::BEP20 => {
            assert(AssetType::spec_from_str("BEP20"@) == Some(AssetType::BEP20));
        },
        AssetType::SPL => {
            assert(AssetType::spec_from_str("SPL"@) == Some(AssetType::SPL));
        },
        AssetType::ARBITRUM => {
            assert(AssetType::spec_from_str("ARBITRUM"@) == Some(AssetType::ARBITRUM));
        },
        AssetType::TRC20 => {
            assert(AssetType::spec_from_str("TRC20"@) == Some(AssetType::TRC20));
        },
    }
}

/// Parsing is a partial inverse of the wire name: a string that parses to an
/// asset type is that type's wire name.
pub proof fn lemma_asset_type_parse_inverse(s: Seq<char>, t: AssetType)
    requires
        AssetType::spec_from_str(s) == Some(t),
    ensures
        t.spec_str() == s,
{
}

} // verus!
