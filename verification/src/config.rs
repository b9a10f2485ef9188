use vstd::prelude::*;
use crate::str_map::StrMap;

verus! {

/// A JSON value, carried through the configuration without being read.
#[verifier::external_type_specification]
#[verifier::external_body]
pub struct ExJsonValue(serde_json::Value);

/// The configuration of the gameboard: the active profile's name, the
/// backlight colour, the binding of each key, and the stored profiles.
pub struct G13Config {
    pub profile_name: String,
    pub color: [u8; 3],
    pub keys: StrMap<String>,
    pub profiles: StrMap<serde_json::Value>,
}

/// The name given to a configuration that does not name its profile.
pub open spec fn spec_default_profile_name() -> Seq<char> {
    seq!['d', 'e', 'f', 'a', 'u', 'l', 't']
}

/// The backlight colour of a configuration that does not give one: pure red.
pub open spec fn spec_default_color() -> Seq<u8> {
    seq![255u8, 0u8, 0u8]
}

/// The configuration of a fresh installation: profile `"default"`, red
/// backlight, no bindings and no stored profiles.
pub open spec fn spec_default_config() -> ConfigView {
    ConfigView {
        profile_name: spec_default_profile_name(),
        color: spec_default_color(),
        keys: Map::empty(),
        profiles: Map::empty(),
    }
}

/// Returns the profile name used when a configuration names none: `"default"`.
pub fn default_profile_name() -> (name: String)
    ensures
        name@ == spec_default_profile_name(),
{
    let name = String::from_str("default");
    proof {
        reveal_strlit("default");
    }
    name
}

/// Returns the backlight colour used when a configuration gives none: `[255, 0, 0]`.
pub fn default_color() -> (color: [u8; 3])
    ensures
        color@ == spec_default_color(),
{
    let color: [u8; 3] = [255, 0, 0];
    assert(color@ =~= spec_default_color());
    color
}

/// What a configuration holds, as mathematical values: the binding of each
/// key is the characters bound to it.
#[verifier::ext_equal]
pub struct ConfigView {
    pub profile_name: Seq<char>,
    pub color: Seq<u8>,
    pub keys: Map<Seq<char>, Seq<char>>,
    pub profiles: Map<Seq<char>, serde_json::Value>,
}

impl View for G13Config {
    type V = ConfigView;

    open spec fn view(&self) -> ConfigView {
        ConfigView {
            profile_name: self.profile_name@,
            color: self.color@,
            keys: self.keys@.map_values(|s: String| s@),
            profiles: self.profiles@,
        }
    }
}

impl Default for G13Config {
    /// The configuration of a fresh installation: profile `"default"`, red
    /// backlight, no bindings and no stored profiles.
    fn default() -> (c: Self)
        ensures
            c@ == spec_default_config(),
    {
        let c = G13Config {
            profile_name: default_profile_name(),
            color: default_color(),
            keys: StrMap::new(),
            profiles: StrMap::new(),
        };
        assert(c@.keys =~= Map::<Seq<char>, Seq<char>>::empty());
        c
    }
}


/// The brightest channel of a colour.
pub open spec fn spec_max_channel(color: Seq<u8>) -> u8 {
    if color[0] >= color[1] && color[0] >= color[2] {
        color[0]
    } else if color[1] >= color[2] {
        color[1]
    } else {
        color[2]
    }
}

/// The brightest channel of a colour.
pub fn max_channel(color: [u8; 3]) -> (m: u8)
    ensures
        m == spec_max_channel(color@),
        m == color@[0] || m == color@[1] || m == color@[2],
        m >= color@[0] && m >= color@[1] && m >= color@[2],
{
    if color[0] >= color[1] && color[0] >= color[2] {
        color[0]
    } else if color[1] >= color[2] {
        color[1]
    } else {
        color[2]
    }
}

/// Where the brightness slider starts for a colour: its brightest channel,
/// and at least 1.
pub fn brightness_of(color: [u8; 3]) -> (b: u8)
    ensures
        b == if spec_max_channel(color@) >= 1 { spec_max_channel(color@) } else { 1u8 },
{
    let m = max_channel(color);
    if m >= 1 {
        m
    } else {
        1
    }
}

/// A fresh configuration is profile `default` with a pure red backlight, no
/// bindings and no stored profiles.
pub proof fn law_fresh_configuration()
    ensures
        spec_default_config().profile_name == seq!['d', 'e', 'f', 'a', 'u', 'l', 't'],
        spec_default_config().color == seq![255u8, 0u8, 0u8],
        spec_default_config().keys.dom().len() == 0,
        spec_default_config().profiles.dom().len() == 0,
{
    assert(spec_default_config().keys.dom() =~= Set::<Seq<char>>::empty());
    assert(spec_default_config().profiles.dom() =~= Set::<Seq<char>>::empty());
}
} // verus!
