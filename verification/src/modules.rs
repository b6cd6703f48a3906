//! Customisation modules and the shell actions they turn into.

use vstd::prelude::*;
use crate::error::EngineError;
use crate::text::{cat, join, join_strings, owned, push_line, strs};
use crate::yaml::{
    Yaml, YamlValue, as_mapping, as_str, list_strings, list_strings_exec, map_get, mget, untagged,
    yv,
};

verus! {

#[derive(Clone, Copy, Debug, PartialEq, Eq, Structural)]
pub enum ModuleType {
    Packages,
    Files,
    Systemd,
    Users,
    Ssh,
    Desktop,
    Browser,
    Drivers,
    Fonts,
    Codecs,
    CustomScript,
}

/// A module of a build; `config` is its JSON configuration.
#[derive(Debug)]
pub struct ModuleSpec {
    pub module_type: ModuleType,
    pub enabled: bool,
    pub dangerous: bool,
    pub config: YamlValue,
}

#[derive(Clone, Debug)]
pub struct ModuleAction {
    pub module_type: ModuleType,
    pub description: String,
    pub shell_snippets: Vec<String>,
}

/// The value under `key` of a configuration object.
pub open spec fn config_get(config: Yaml, key: Seq<char>) -> Option<Yaml> {
    match as_mapping(config) {
        Some(m) => mget(m, key),
        None => None,
    }
}

/// The description and shell snippets of a module; `Err` when a custom
/// script names no path.
pub open spec fn module_plan(t: ModuleType, config: Yaml) -> Result<(Seq<char>, Seq<Seq<char>>), ()> {
    match t {
        ModuleType::Packages => Ok(
            (
                "Package operations"@,
                seq![
                    "# install: "@ + join(list_strings(config_get(config, "install"@)), ","@),
                    "# remove: "@ + join(list_strings(config_get(config, "remove"@)), ","@),
                ],
            ),
        ),
        ModuleType::Files => Ok(
            ("File injection"@, seq!["# copy managed files into target rootfs"@]),
        ),
        ModuleType::Systemd => Ok(
            (
                "Systemd service policy"@,
                seq!["# systemctl enable/disable units based on module config"@],
            ),
        ),
        ModuleType::Users => Ok(
            ("User provisioning"@, seq!["# apply user/group policy from config.users"@]),
        ),
        ModuleType::Ssh => Ok(("SSH policy"@, seq!["# apply hardened sshd_config directives"@])),
        ModuleType::Desktop => Ok(
            ("Desktop customization"@, seq!["# apply wallpaper/theme/icon/cursor settings"@]),
        ),
        ModuleType::Browser => Ok(
            ("Browser customization"@, seq!["# configure browser settings and extensions"@]),
        ),
        ModuleType::Drivers => Ok(
            ("Driver package policy"@, seq!["# install selected driver packages"@]),
        ),
        ModuleType::Fonts => Ok(("Font pack policy"@, seq!["# install selected fonts"@])),
        ModuleType::Codecs => Ok(
            ("Codec package policy"@, seq!["# install selected media codecs"@]),
        ),
        ModuleType::CustomScript => match config_get(config, "path"@) {
            Some(v) => match as_str(v) {
                Some(p) => Ok(("Custom script execution"@, seq!["bash "@ + p])),
                None => Err(()),
            },
            None => Err(()),
        },
    }
}

fn config_value<'a>(config: &'a YamlValue, key: &str) -> (r: Option<&'a YamlValue>)
    ensures
        match r {
            Some(x) => config_get(yv(*config), key@) == Some(yv(*x)),
            None => config_get(yv(*config), key@) is None,
        },
{
    match untagged(config) {
        YamlValue::Mapping(es) => map_get(es, key),
        _ => None,
    }
}

fn one(s: String) -> (r: Vec<String>)
    ensures
        strs(r@) == seq![s@],
{
    let mut v: Vec<String> = Vec::new();
    v.push(s);
    assert(strs(v@) =~= seq![s@]);
    v
}

/// The action of one module. A dangerous module needs dangerous mode.
pub fn build_action(module: &ModuleSpec, dangerous_mode_enabled: bool) -> (r: Result<ModuleAction, EngineError>)
    ensures
        module.dangerous && !dangerous_mode_enabled ==> (r matches Err(
            EngineError::PolicyViolation(m),
        ) && m@ == "dangerous module requested while dangerous mode is disabled"@),
        !(module.dangerous && !dangerous_mode_enabled) ==> match module_plan(
            module.module_type,
            yv(module.config),
        ) {
            Ok((d, s)) => r matches Ok(a) && a.module_type == module.module_type && a.description@
                == d && strs(a.shell_snippets@) == s,
            Err(()) => r matches Err(EngineError::InvalidConfig(m)) && m@
                == "custom_script module requires config.path"@,
        },
{
    if module.dangerous && !dangerous_mode_enabled {
        return Err(
            EngineError::PolicyViolation(
                owned("dangerous module requested while dangerous mode is disabled"),
            ),
        );
    }
    let (description, snippets) = match module.module_type {
        ModuleType::Packages => {
            let install = list_strings_exec(config_value(&module.config, "install"));
            let remove = list_strings_exec(config_value(&module.config, "remove"));
            let i = join_strings(&install, ",");
            let r = join_strings(&remove, ",");
            let mut v: Vec<String> = Vec::new();
            v.push(cat("# install: ", i.as_str()));
            v.push(cat("# remove: ", r.as_str()));
            assert(strs(v@) =~= seq![
                "# install: "@ + join(list_strings(config_get(yv(module.config), "install"@)), ","@),
                "# remove: "@ + join(list_strings(config_get(yv(module.config), "remove"@)), ","@),
            ]);
            (owned("Package operations"), v)
        },
        ModuleType::Files => (
            owned("File injection"),
            one(owned("# copy managed files into target rootfs")),
        ),
        ModuleType::Systemd => (
            owned("Systemd service policy"),
            one(owned("# systemctl enable/disable units based on module config")),
        ),
        ModuleType::Users => (
            owned("User provisioning"),
            one(owned("# apply user/group policy from config.users")),
        ),
        ModuleType::Ssh => (owned("SSH policy"), one(owned("# apply hardened sshd_config directives"))),
        ModuleType::Desktop => (
            owned("Desktop customization"),
            one(owned("# apply wallpaper/theme/icon/cursor settings")),
        ),
        ModuleType::Browser => (
            owned("Browser customization"),
            one(owned("# configure browser settings and extensions")),
        ),
        ModuleType::Drivers => (
            owned("Driver package policy"),
            one(owned("# install selected driver packages")),
        ),
        ModuleType::Fonts => (owned("Font pack policy"), one(owned("# install selected fonts"))),
        ModuleType::Codecs => (
            owned("Codec package policy"),
            one(owned("# install selected media codecs")),
        ),
        ModuleType::CustomScript => {
            let path = match config_value(&module.config, "path") {
                Some(v) => match untagged(v) {
                    YamlValue::Str(p) => p.clone(),
                    _ => {
                        return Err(
                            EngineError::InvalidConfig(
                                owned("custom_script module requires config.path"),
                            ),
                        );
                    },
                },
                None => {
                    return Err(
                        EngineError::InvalidConfig(owned("custom_script module requires config.path")),
                    );
                },
            };
            (owned("Custom script execution"), one(cat("bash ", path.as_str())))
        },
    };
    Ok(ModuleAction { module_type: module.module_type, description, shell_snippets: snippets })
}

/// The actions of the enabled modules, in order; the first module that
/// fails stops the evaluation.
pub open spec fn module_outcome(m: ModuleSpec, dangerous: bool) -> Result<(Seq<char>, Seq<Seq<char>>), Seq<char>> {
    if m.dangerous && !dangerous {
        Err("dangerous module requested while dangerous mode is disabled"@)
    } else {
        match module_plan(m.module_type, yv(m.config)) {
            Ok(p) => Ok(p),
            Err(()) => Err("custom_script module requires config.path"@),
        }
    }
}

pub open spec fn action_view(a: ModuleAction) -> (ModuleType, Seq<char>, Seq<Seq<char>>) {
    (a.module_type, a.description@, strs(a.shell_snippets@))
}

pub open spec fn actions_view(v: Seq<ModuleAction>) -> Seq<(ModuleType, Seq<char>, Seq<Seq<char>>)> {
    Seq::new(v.len(), |i: int| action_view(v[i]))
}

/// The actions of the enabled modules among `ms`, assuming none fails.
pub open spec fn enabled_actions(ms: Seq<ModuleSpec>, dangerous: bool) -> Seq<(ModuleType, Seq<char>, Seq<Seq<char>>)>
    decreases ms.len(),
{
    if ms.len() == 0 {
        Seq::empty()
    } else {
        let rest = enabled_actions(ms.drop_last(), dangerous);
        let m = ms.last();
        if m.enabled {
            match module_outcome(m, dangerous) {
                Ok((d, s)) => rest.push((m.module_type, d, s)),
                Err(_) => rest,
            }
        } else {
            rest
        }
    }
}

pub fn evaluate_modules(modules: &Vec<ModuleSpec>, dangerous_mode_enabled: bool) -> (r: Result<Vec<ModuleAction>, EngineError>)
    ensures
        match r {
            Ok(acts) => forall|i: int|
                0 <= i < modules@.len() && modules@[i].enabled ==> #[trigger] module_outcome(
                    modules@[i],
                    dangerous_mode_enabled,
                ) is Ok,
            Err(_) => exists|i: int|
                0 <= i < modules@.len() && modules@[i].enabled && #[trigger] module_outcome(
                    modules@[i],
                    dangerous_mode_enabled,
                ) is Err,
        },
        r matches Ok(acts) ==> actions_view(acts@) == enabled_actions(modules@, dangerous_mode_enabled),
{
    let mut actions: Vec<ModuleAction> = Vec::new();
    let mut i: usize = 0;
    while i < modules.len()
        invariant
            i <= modules@.len(),
            actions_view(actions@) == enabled_actions(modules@.take(i as int), dangerous_mode_enabled),
            forall|k: int|
                0 <= k < i && modules@[k].enabled ==> #[trigger] module_outcome(
                    modules@[k],
                    dangerous_mode_enabled,
                ) is Ok,
        decreases modules.len() - i,
    {
        assert(modules@.take(i + 1).drop_last() =~= modules@.take(i as int));
        assert(modules@.take(i + 1).last() == modules@[i as int]);
        if modules[i].enabled {
            match build_action(&modules[i], dangerous_mode_enabled) {
                Ok(a) => {
                    let ghost before = actions_view(actions@);
                    actions.push(a);
                    assert(actions_view(actions@) =~= before.push(action_view(a)));
                },
                Err(e) => {
                    assert(module_outcome(modules@[i as int], dangerous_mode_enabled) is Err);
                    return Err(e);
                },
            }
        }
        i = i + 1;
    }
    assert(modules@.take(modules@.len() as int) =~= modules@);
    Ok(actions)
}

} // verus!
