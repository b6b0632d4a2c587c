//! The jj settings that a repo is opened with.

use vstd::prelude::*;

use crate::error::EngineError;

verus! {

/// A set of configuration variables of jj.
#[verifier::external_type_specification]
#[verifier::external_body]
pub struct ExConfigLayer(jj_lib::config::ConfigLayer);

/// The stack of layers in which jj looks a variable up.
#[verifier::external_type_specification]
#[verifier::external_body]
pub struct ExStackedConfig(jj_lib::config::StackedConfig);

/// The settings that jj reads out of a configuration.
#[verifier::external_type_specification]
#[verifier::external_body]
pub struct ExUserSettings(jj_lib::settings::UserSettings);

/// Why jj could not set a variable.
#[verifier::external_type_specification]
#[verifier::external_body]
pub struct ExConfigUpdateError(jj_lib::config::ConfigUpdateError);

/// Why jj could not read a variable.
#[verifier::external_type_specification]
#[verifier::external_body]
pub struct ExConfigGetError(jj_lib::config::ConfigGetError);

/// No string under any table and key.
pub open spec fn no_strings() -> Map<(Seq<char>, Seq<char>), Seq<char>> {
    Map::empty()
}

/// The strings of a layer, by table and key.
pub uninterp spec fn layer_strings(layer: jj_lib::config::ConfigLayer) -> Map<
    (Seq<char>, Seq<char>),
    Seq<char>,
>;

/// The layer ranks as user configuration and holds nothing but tables of strings.
pub uninterp spec fn layer_is_plain(layer: jj_lib::config::ConfigLayer) -> bool;

/// The strings that the layers above the built-in defaults set, by table and key,
/// the highest layer first.
pub uninterp spec fn stack_strings(config: jj_lib::config::StackedConfig) -> Map<
    (Seq<char>, Seq<char>),
    Seq<char>,
>;

/// The stack is jj's built-in defaults below plain layers.
pub uninterp spec fn stack_is_plain(config: jj_lib::config::StackedConfig) -> bool;

/// The strings that the settings were given on top of the built-in defaults, by
/// table and key.
pub uninterp spec fn settings_strings(settings: jj_lib::settings::UserSettings) -> Map<
    (Seq<char>, Seq<char>),
    Seq<char>,
>;

/// `ConfigLayer::empty` with the user source: a layer without variables.
#[verifier::external_body]
fn empty_user_layer() -> (r: jj_lib::config::ConfigLayer)
    ensures
        layer_strings(r) == no_strings(),
        layer_is_plain(r),
{
    jj_lib::config::ConfigLayer::empty(jj_lib::config::ConfigSource::User)
}

/// `ConfigLayer::set_value` of a string at a path of two keys: in a plain layer
/// it sets that string and leaves the others as they were. Of other layers
/// nothing is said.
#[verifier::external_body]
fn set_string(
    layer: &mut jj_lib::config::ConfigLayer,
    table: &str,
    key: &str,
    value: &str,
) -> (r: Result<(), jj_lib::config::ConfigUpdateError>)
    ensures
        layer_is_plain(*old(layer)) ==> {
            &&& r is Ok
            &&& layer_is_plain(*final(layer))
            &&& layer_strings(*final(layer)) == layer_strings(*old(layer)).insert(
                (table@, key@),
                value@,
            )
        },
{
    layer.set_value([table, key], value).map(|_| ())
}

/// `StackedConfig::with_defaults`: the built-in defaults and nothing above them.
#[verifier::external_body]
fn default_config() -> (r: jj_lib::config::StackedConfig)
    ensures
        stack_strings(r) == no_strings(),
        stack_is_plain(r),
{
    jj_lib::config::StackedConfig::with_defaults()
}

/// `StackedConfig::add_layer`: a plain layer goes above the layers of a plain
/// stack, so that its strings are found first. Of other layers and stacks nothing
/// is said.
#[verifier::external_body]
fn add_layer(config: &mut jj_lib::config::StackedConfig, layer: jj_lib::config::ConfigLayer)
    ensures
        stack_is_plain(*old(config)) && layer_is_plain(layer) ==> {
            &&& stack_is_plain(*final(config))
            &&& stack_strings(*final(config)) == stack_strings(*old(config)).union_prefer_right(
                layer_strings(layer),
            )
        },
{
    config.add_layer(layer)
}

/// `UserSettings::from_config`: a plain stack that sets strings only below `user`
/// is accepted, and the settings read the strings that it holds. Of other stacks
/// nothing is said.
#[verifier::external_body]
fn settings_from(config: jj_lib::config::StackedConfig) -> (r: Result<
    jj_lib::settings::UserSettings,
    jj_lib::config::ConfigGetError,
>)
    ensures
        stack_is_plain(config) && (forall|k: (Seq<char>, Seq<char>)| #[trigger]
            stack_strings(config).contains_key(k) ==> k.0 == "user"@) ==> {
            &&& r is Ok
            &&& settings_strings(r->Ok_0) == stack_strings(config)
        },
{
    jj_lib::settings::UserSettings::from_config(config)
}

/// Settings under which commits are made in the name of `name` and `email`.
pub fn make_settings(name: &str, email: &str) -> (r: Result<
    jj_lib::settings::UserSettings,
    EngineError,
>)
    ensures
        r is Ok,
        settings_strings(r->Ok_0) == no_strings().insert(
            ("user"@, "name"@),
            name@,
        ).insert(("user"@, "email"@), email@),
{
    let mut config = default_config();
    let mut layer = empty_user_layer();
    if set_string(&mut layer, "user", "name", name).is_err() || set_string(
        &mut layer,
        "user",
        "email",
        email,
    ).is_err() {
        return Err(EngineError::Internal("cannot set the user identity".to_string()));
    }
    let ghost given = layer_strings(layer);
    add_layer(&mut config, layer);
    assert(stack_strings(config) =~= given);
    match settings_from(config) {
        Ok(settings) => Ok(settings),
        Err(_) => Err(EngineError::Internal("cannot read the user identity".to_string())),
    }
}

} // verus!
