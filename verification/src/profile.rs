//! A profile: its identity, its effect scripts, and the typed parameters it
//! stores for each script, with the rules for reading and writing them.

use vstd::prelude::*;
use crate::config::{
    ConfigParam, ValueView, ParamView, FindConfig, params_view, same_kind, first_named, none_named,
    lemma_first_named,
};
use crate::config_map::{ConfigMap, ConfigView};

verus! {

/// The directory that holds the profiles.
pub const DEFAULT_PROFILE_DIR: &'static str = "/var/lib/eruption/profiles/";

/// The effect script of a profile that names none.
pub const DEFAULT_EFFECT_SCRIPT: &'static str = "organic.lua";

/// Errors of loading, finding, saving a profile and of setting its values.
#[derive(Debug)]
pub enum ProfileError {
    OpenError {},
    ParseError {},
    WriteError { msg: String },
    FindError {},
    SetValueError { msg: String },
}

/// Whether `id` has the bits of a random (version 4, RFC 4122 variant) UUID
/// in its 128-bit big-endian form.
pub open spec fn is_random_uuid(id: u128) -> bool {
    &&& (id >> 76u128) & 0xfu128 == 4
    &&& (id >> 62u128) & 0x3u128 == 2
}

/// A fresh random identifier, as the 128-bit big-endian value of a UUID.
///
/// Calls `uuid::Uuid::new_v4` and `Uuid::as_u128`. The contract claims what
/// `new_v4` does to the random bytes it draws: it sets the version nibble to 4
/// and the variant bits to `10`. The other 122 bits are random and nothing is
/// said of them; `new_v4` panics when the operating system yields no random
/// bytes, which no argument can rule out.
#[verifier::external_body]
fn default_id() -> (id: u128)
    ensures
        is_random_uuid(id),
{
    uuid::Uuid::new_v4().as_u128()
}

/// The profile file of a profile that was parsed but not yet given one: empty.
pub fn default_profile_file() -> (r: String)
    ensures
        r@ == Seq::<char>::empty(),
{
    String::new()
}

/// The scripts of a profile that names none: the default effect script.
pub fn default_script_file() -> (r: Vec<String>)
    ensures
        r@.len() == 1,
        r@[0]@ == DEFAULT_EFFECT_SCRIPT@,
{
    let mut v = Vec::new();
    v.push(DEFAULT_EFFECT_SCRIPT.to_owned());
    v
}

/// A profile.
#[derive(Debug)]
pub struct Profile {
    pub id: u128,
    pub profile_file: String,
    pub name: String,
    pub description: String,
    pub active_scripts: Vec<String>,
    pub config: Option<ConfigMap>,
}

/// A profile as mathematics sees it.
pub struct ProfileView {
    pub id: u128,
    pub profile_file: Seq<char>,
    pub name: Seq<char>,
    pub description: Seq<char>,
    pub active_scripts: Seq<Seq<char>>,
    pub config: Option<ConfigView>,
}

impl View for Profile {
    type V = ProfileView;

    open spec fn view(&self) -> ProfileView {
        ProfileView {
            id: self.id,
            profile_file: self.profile_file@,
            name: self.name@,
            description: self.description@,
            active_scripts: self.active_scripts@.map_values(|s: String| s@),
            config: match &self.config {
                Some(c) => Some(c@),
                None => None,
            },
        }
    }
}

/// The value stored for parameter `name` of script `script`: that of the
/// first parameter of that name in the script's list.
pub open spec fn lookup(cfg: Option<ConfigView>, script: Seq<char>, name: Seq<char>) -> Option<ValueView> {
    match cfg {
        None => None,
        Some(m) => if m.contains_key(script) {
            match first_named(m[script], name) {
                Some(i) => Some(m[script][i].1),
                None => None,
            }
        } else {
            None
        },
    }
}

/// The configuration after storing parameter `p` for `script`, or `None`
/// when the script already has a parameter of that name of another type.
///
/// A script not yet configured gets the one parameter; a parameter of the
/// same name and type is replaced; a new name is appended to the list.
pub open spec fn stored(m: ConfigView, script: Seq<char>, p: ParamView) -> Option<ConfigView> {
    if !m.contains_key(script) {
        Some(m.insert(script, seq![p]))
    } else {
        let ps = m[script];
        match first_named(ps, p.0) {
            None => Some(m.insert(script, ps.push(p))),
            Some(i) => if same_kind(ps[i].1, p.1) {
                Some(m.insert(script, ps.update(i, p)))
            } else {
                None
            },
        }
    }
}

/// What setting parameter `p` of `script` makes of a profile's configuration:
/// `Ok` with the new configuration, or `Err(true)` when the profile has no
/// configuration, or `Err(false)` when the name is taken by another type.
pub open spec fn set_outcome(cfg: Option<ConfigView>, script: Seq<char>, p: ParamView) -> Result<ConfigView, bool> {
    match cfg {
        None => Err(true),
        Some(m) => match stored(m, script, p) {
            Some(m2) => Ok(m2),
            None => Err(false),
        },
    }
}

/// The contract of the setters: the profile after setting `p` of `script`
/// and the result, given the profile before.
pub open spec fn set_ensures(before: ProfileView, after: ProfileView, script: Seq<char>, p: ParamView, r: Result<(), ProfileError>) -> bool {
    match set_outcome(before.config, script, p) {
        Ok(m2) => r is Ok && after == (ProfileView { config: Some(m2), ..before }),
        Err(no_config) => {
            &&& after == before
            &&& r matches Err(ProfileError::SetValueError { msg })
            &&& msg@ == (if no_config { "Could not get config"@ } else { "Invalid data type"@ })
        },
    }
}

fn same_kind_exec(a: &ConfigParam, b: &ConfigParam) -> (r: bool)
    ensures
        r == same_kind(a@.1, b@.1),
{
    match (a, b) {
        (ConfigParam::Int { .. }, ConfigParam::Int { .. }) => true,
        (ConfigParam::Float { .. }, ConfigParam::Float { .. }) => true,
        (ConfigParam::Bool { .. }, ConfigParam::Bool { .. }) => true,
        (ConfigParam::String { .. }, ConfigParam::String { .. }) => true,
        (ConfigParam::Color { .. }, ConfigParam::Color { .. }) => true,
        _ => false,
    }
}

impl Profile {
    /// A freshly parsed profile made ready for use: a new random identifier,
    /// the file it was read from, and an empty configuration.
    pub fn new(profile_file: &str, parsed: Profile) -> (r: Profile)
        ensures
            is_random_uuid(r.id),
            r@ == (ProfileView {
                id: r.id,
                profile_file: profile_file@,
                config: Some(Map::<Seq<char>, Seq<ParamView>>::empty()),
                ..parsed@
            }),
    {
        let mut result = parsed;
        result.id = default_id();
        result.profile_file = profile_file.to_owned();
        result.config = Some(ConfigMap::new());
        result
    }

    /// A parsed profile made ready for use: it keeps its identifier and its
    /// configuration (an empty one if it had none) and records the file it
    /// was read from.
    pub fn from(profile_file: &str, parsed: Profile) -> (r: Profile)
        ensures
            r@ == (ProfileView {
                profile_file: profile_file@,
                config: Some(match parsed@.config {
                    Some(m) => m,
                    None => Map::<Seq<char>, Seq<ParamView>>::empty(),
                }),
                ..parsed@
            }),
    {
        let mut result = parsed;
        result.profile_file = profile_file.to_owned();
        if result.config.is_none() {
            result.config = Some(ConfigMap::new());
        }
        result
    }

    fn set_param(&mut self, script_name: &str, name: &str, param: ConfigParam) -> (r: Result<(), ProfileError>)
        requires
            param@.0 == name@,
        ensures
            set_ensures(old(self)@, final(self)@, script_name@, param@, r),
    {
        let ghost pv = param@;
        match &mut self.config {
            None => Err(ProfileError::SetValueError { msg: "Could not get config".to_owned() }),
            Some(config) => {
                let ghost m = config@;
                match config.take(script_name) {
                    None => {
                        let mut v: Vec<ConfigParam> = Vec::new();
                        v.push(param);
                        proof {
                            assert(params_view(v@) =~= seq![pv]);
                        }
                        config.insert(script_name.to_owned(), v);
                        Ok(())
                    },
                    Some(mut cfg) => {
                        let ghost ps = params_view(cfg@);
                        proof {
                            lemma_first_named(ps, name@);
                        }
                        let res = match cfg.find_config_param_mut(name) {
                            Some(p) => {
                                if same_kind_exec(p, &param) {
                                    *p = param;
                                    Ok(())
                                } else {
                                    Err(ProfileError::SetValueError { msg: "Invalid data type".to_owned() })
                                }
                            },
                            None => {
                                cfg.push(param);
                                Ok(())
                            },
                        };
                        proof {
                            if res is Ok {
                                if none_named(ps, name@) {
                                    assert(params_view(cfg@) =~= ps.push(pv));
                                } else {
                                    let i: int = first_named(ps, name@)->0;
                                    assert(params_view(cfg@) =~= ps.update(i, pv));
                                }
                            } else {
                                assert(params_view(cfg@) =~= ps);
                            }
                        }
                        let ghost new_ps = params_view(cfg@);
                        config.insert(script_name.to_owned(), cfg);
                        proof {
                            assert(config@ =~= m.insert(script_name@, new_ps));
                            if res is Err {
                                assert(m.insert(script_name@, new_ps) =~= m);
                            }
                        }
                        res
                    },
                }
            },
        }
    }
}


impl Profile {
    /// The parameter stored as `name` for script `script_name`, if any.
    fn find_param(&self, script_name: &str, name: &str) -> (r: Option<&ConfigParam>)
        ensures
            r is None <==> lookup(self@.config, script_name@, name@) is None,
            r matches Some(p) ==> lookup(self@.config, script_name@, name@) == Some(p@.1),
    {
        match &self.config {
            None => None,
            Some(config) => match config.get(script_name) {
                None => None,
                Some(cfg) => {
                    proof {
                        lemma_first_named(params_view(cfg@), name@);
                    }
                    match cfg.find_config_param(name) {
                        None => None,
                        Some(p) => {
                            proof {
                                let i: int = choose|i: int| crate::config::is_first_named(params_view(cfg@), name@, i) && *p == cfg@[i];
                                assert(params_view(cfg@)[i] == p@);
                            }
                            Some(p)
                        },
                    }
                },
            },
        }
    }

    /// The integer stored as `name` for script `script_name`; `None` when
    /// there is no such parameter or it is not an integer.
    pub fn get_int_value(&self, script_name: &str, name: &str) -> (r: Option<&i64>)
        ensures
            r is Some <==> lookup(self@.config, script_name@, name@) matches Some(ValueView::Int(_)),
            r matches Some(v) ==> lookup(self@.config, script_name@, name@) == Some(ValueView::Int(*v)),
    {
        match self.find_param(script_name, name) {
            Some(ConfigParam::Int { value, .. }) => Some(value),
            _ => None,
        }
    }

    /// Sets the integer `name` of script `script_name` to `val`.
    pub fn set_int_value(&mut self, script_name: &str, name: &str, val: i64) -> (r: Result<(), ProfileError>)
        ensures
            set_ensures(old(self)@, final(self)@, script_name@, (name@, ValueView::Int(val)), r),
    {
        self.set_param(script_name, name, ConfigParam::Int { name: name.to_owned(), value: val })
    }

    /// The bit pattern of the floating-point value stored as `name` for
    /// script `script_name`; `None` when there is no such parameter or it is
    /// not floating-point.
    pub fn get_float_value(&self, script_name: &str, name: &str) -> (r: Option<&u64>)
        ensures
            r is Some <==> lookup(self@.config, script_name@, name@) matches Some(ValueView::Float(_)),
            r matches Some(v) ==> lookup(self@.config, script_name@, name@) == Some(ValueView::Float(*v)),
    {
        match self.find_param(script_name, name) {
            Some(ConfigParam::Float { value, .. }) => Some(value),
            _ => None,
        }
    }

    /// Sets the floating-point value `name` of script `script_name` to the
    /// double whose bit pattern is `val`.
    pub fn set_float_value(&mut self, script_name: &str, name: &str, val: u64) -> (r: Result<(), ProfileError>)
        ensures
            set_ensures(old(self)@, final(self)@, script_name@, (name@, ValueView::Float(val)), r),
    {
        self.set_param(script_name, name, ConfigParam::Float { name: name.to_owned(), value: val })
    }

    /// The boolean stored as `name` for script `script_name`; `None` when
    /// there is no such parameter or it is not a boolean.
    pub fn get_bool_value(&self, script_name: &str, name: &str) -> (r: Option<&bool>)
        ensures
            r is Some <==> lookup(self@.config, script_name@, name@) matches Some(ValueView::Bool(_)),
            r matches Some(v) ==> lookup(self@.config, script_name@, name@) == Some(ValueView::Bool(*v)),
    {
        match self.find_param(script_name, name) {
            Some(ConfigParam::Bool { value, .. }) => Some(value),
            _ => None,
        }
    }

    /// Sets the boolean `name` of script `script_name` to `val`.
    pub fn set_bool_value(&mut self, script_name: &str, name: &str, val: bool) -> (r: Result<(), ProfileError>)
        ensures
            set_ensures(old(self)@, final(self)@, script_name@, (name@, ValueView::Bool(val)), r),
    {
        self.set_param(script_name, name, ConfigParam::Bool { name: name.to_owned(), value: val })
    }

    /// The string stored as `name` for script `script_name`; `None` when
    /// there is no such parameter or it is not a string.
    pub fn get_str_value(&self, script_name: &str, name: &str) -> (r: Option<&str>)
        ensures
            r is Some <==> lookup(self@.config, script_name@, name@) matches Some(ValueView::Text(_)),
            r matches Some(v) ==> lookup(self@.config, script_name@, name@) == Some(ValueView::Text(v@)),
    {
        match self.find_param(script_name, name) {
            Some(ConfigParam::String { value, .. }) => Some(value.as_str()),
            _ => None,
        }
    }

    /// Sets the string `name` of script `script_name` to `val`.
    pub fn set_str_value(&mut self, script_name: &str, name: &str, val: String) -> (r: Result<(), ProfileError>)
        ensures
            set_ensures(old(self)@, final(self)@, script_name@, (name@, ValueView::Text(val@)), r),
    {
        self.set_param(script_name, name, ConfigParam::String { name: name.to_owned(), value: val })
    }

    /// The colour stored as `name` for script `script_name`; `None` when
    /// there is no such parameter or it is not a colour.
    pub fn get_color_value(&self, script_name: &str, name: &str) -> (r: Option<&u32>)
        ensures
            r is Some <==> lookup(self@.config, script_name@, name@) matches Some(ValueView::Color(_)),
            r matches Some(v) ==> lookup(self@.config, script_name@, name@) == Some(ValueView::Color(*v)),
    {
        match self.find_param(script_name, name) {
            Some(ConfigParam::Color { value, .. }) => Some(value),
            _ => None,
        }
    }

    /// Sets the colour `name` of script `script_name` to `val`.
    pub fn set_color_value(&mut self, script_name: &str, name: &str, val: u32) -> (r: Result<(), ProfileError>)
        ensures
            set_ensures(old(self)@, final(self)@, script_name@, (name@, ValueView::Color(val)), r),
    {
        self.set_param(script_name, name, ConfigParam::Color { name: name.to_owned(), value: val })
    }
}


/// Whether a loading outcome is a profile with identifier `uuid`.
pub open spec fn has_id(r: Result<Profile, ProfileError>, uuid: u128) -> bool {
    r matches Ok(p) && p.id == uuid
}

/// `i` is the position of the first loaded profile with identifier `uuid`.
pub open spec fn is_first_with_id(s: Seq<Result<Profile, ProfileError>>, uuid: u128, i: int) -> bool {
    &&& 0 <= i < s.len()
    &&& has_id(s[i], uuid)
    &&& forall|j: int| 0 <= j < i ==> !has_id(s[j], uuid)
}

impl Profile {
    /// The first of the loaded profiles whose identifier is `uuid`, or
    /// `FindError` when none has it. Profiles that failed to load are passed
    /// over.
    pub fn find_by_uuid(uuid: u128, loaded: Vec<Result<Profile, ProfileError>>) -> (r: Result<Profile, ProfileError>)
        ensures
            r is Ok <==> exists|i: int| 0 <= i < loaded@.len() && has_id(loaded@[i], uuid),
            r matches Ok(p) ==> exists|i: int| is_first_with_id(loaded@, uuid, i) && loaded@[i] == Ok::<Profile, ProfileError>(p),
            r is Err ==> r matches Err(ProfileError::FindError {}),
    {
        let mut i: usize = 0;
        while i < loaded.len()
            invariant
                i <= loaded@.len(),
                forall|j: int| 0 <= j < i ==> !has_id(loaded@[j], uuid),
            decreases loaded@.len() - i,
        {
            let hit = match &loaded[i] {
                Ok(p) => p.id == uuid,
                Err(_) => false,
            };
            if hit {
                let ghost s = loaded@;
                let mut rest = loaded;
                let x = rest.remove(i);
                proof {
                    assert(is_first_with_id(s, uuid, i as int));
                }
                return x;
            }
            i = i + 1;
        }
        Err(ProfileError::FindError {})
    }
}


impl Default for Profile {
    /// The profile used when there is none: `default.profile` in the profile
    /// directory, running the default effect script, with an empty
    /// configuration and a fresh random identifier.
    fn default() -> (r: Self)
        ensures
            is_random_uuid(r.id),
            r@ == (ProfileView {
                id: r.id,
                profile_file: DEFAULT_PROFILE_DIR@ + "default.profile"@,
                name: "Default"@,
                description: "Auto-generated profile"@,
                active_scripts: seq![DEFAULT_EFFECT_SCRIPT@],
                config: Some(Map::<Seq<char>, Seq<ParamView>>::empty()),
            }),
    {
        let mut profile_file = DEFAULT_PROFILE_DIR.to_owned();
        profile_file.append("default.profile");
        let mut active_scripts: Vec<String> = Vec::new();
        active_scripts.push(DEFAULT_EFFECT_SCRIPT.to_owned());
        let r = Profile {
            id: default_id(),
            profile_file,
            name: "Default".to_owned(),
            description: "Auto-generated profile".to_owned(),
            active_scripts,
            config: Some(ConfigMap::new()),
        };
        proof {
            assert(r.active_scripts@.map_values(|s: String| s@) =~= seq![DEFAULT_EFFECT_SCRIPT@]);
        }
        r
    }
}

impl Clone for Profile {
    fn clone(&self) -> (r: Self)
        ensures
            r@ == self@,
    {
        let active_scripts = self.active_scripts.clone();
        proof {
            assert(active_scripts@ =~= self.active_scripts@);
        }
        let config = match &self.config {
            Some(c) => Some(c.clone()),
            None => None,
        };
        Profile {
            id: self.id,
            profile_file: self.profile_file.clone(),
            name: self.name.clone(),
            description: self.description.clone(),
            active_scripts,
            config,
        }
    }
}

} // verus!
