//! The game's launch options that the recorder needs.
use vstd::prelude::*;
use crate::paths::{join_path, path_push};
use crate::text::{chars_of, contains, contains_seq, decimal, extend_chars, occurs_at, push_decimal, replace_all, replace_seq, string_of};
use crate::vdf::{parsed_vdf, vdf_first, vdf_get, vdf_parse, VdfValue};

verus! {

/// The launch options that make the game log its console to a file and
/// accept console commands over RCON.
pub open spec fn recorder_flags() -> Seq<char> {
    "-condebug -conclearlog -usercon"@
}

/// The launch options `current` with the recorder's flags appended, or
/// `None` when they are already there.
pub fn launch_options_with_flags(current: &str) -> (r: Option<String>)
    ensures
        contains_seq(current@, recorder_flags()) ==> r is None,
        !contains_seq(current@, recorder_flags()) ==> (r matches Some(s) && s@ == current@ + " "@
            + recorder_flags()),
{
    if contains(current, "-condebug -conclearlog -usercon") {
        return None;
    }
    let mut out = chars_of(current);
    out.push(' ');
    extend_chars(&mut out, &chars_of("-condebug -conclearlog -usercon"));
    proof {
        reveal_strlit(" ");
    }
    assert(out@ =~= current@ + " "@ + recorder_flags());
    Some(string_of(&out))
}

/// Adding the recorder's flags is done once: the launch options it gives
/// already hold the flags, so a second pass leaves them as they are.
pub proof fn lemma_flags_added_once(current: Seq<char>)
    ensures
        contains_seq(current + " "@ + recorder_flags(), recorder_flags()),
{
    let s = current + " "@ + recorder_flags();
    let i = s.len() - recorder_flags().len();
    assert(s.subrange(i, i + recorder_flags().len()) =~= recorder_flags());
    assert(occurs_at(s, recorder_flags(), i));
}

/// Why the launch options cannot be read from a Steam user's configuration.
#[derive(Debug, Clone, Copy, PartialEq, Eq, Structural)]
pub enum LaunchConfigError {
    /// The text is not a VDF document.
    InvalidVdf,
    /// The document has no `Software/Valve/Steam/apps/440/LaunchOptions`.
    NoLaunchOptions,
}

/// The values of the game's `LaunchOptions` in a configuration document:
/// the key path `Software`, `Valve`, `Steam`, `apps`, `440`, each step the
/// first value of an object, then every value given for `LaunchOptions`.
pub open spec fn launch_option_values(root: VdfValue) -> Option<Seq<VdfValue>> {
    match vdf_first(root, "Software"@) {
        Some(a) => match vdf_first(a, "Valve"@) {
            Some(b) => match vdf_first(b, "Steam"@) {
                Some(c) => match vdf_first(c, "apps"@) {
                    Some(d) => match vdf_first(d, "440"@) {
                        Some(e) => vdf_get(e, "LaunchOptions"@),
                        None => None,
                    },
                    None => None,
                },
                None => None,
            },
            None => None,
        },
        None => None,
    }
}

/// The launch option values of the configuration text, if it is a VDF
/// document that has them.
pub open spec fn config_launch_options(text: Seq<char>) -> Option<Seq<VdfValue>> {
    match parsed_vdf(text) {
        Some(doc) => launch_option_values(doc.1),
        None => None,
    }
}

/// A launch option value that is a string without the recorder's flags.
pub open spec fn lacks_flags(v: VdfValue) -> bool {
    v matches VdfValue::Str(s) && !contains_seq(s@, recorder_flags())
}

/// Some launch option value lacks the recorder's flags.
pub open spec fn needs_flags(opts: Seq<VdfValue>) -> bool {
    exists|i: int| 0 <= i < opts.len() && lacks_flags(#[trigger] opts[i])
}

/// The configuration text after adding the flags to each launch option in
/// turn: every occurrence in the text of an option `s` that lacks them is
/// replaced by `s`, a space and the flags.
pub open spec fn flagged_config(text: Seq<char>, opts: Seq<VdfValue>) -> Seq<char>
    decreases opts.len(),
{
    if opts.len() == 0 {
        text
    } else {
        let prev = flagged_config(text, opts.drop_last());
        match opts.last() {
            VdfValue::Str(s) => if contains_seq(s@, recorder_flags()) {
                prev
            } else {
                replace_seq(prev, s@, s@ + " "@ + recorder_flags())
            },
            VdfValue::Obj(_) => prev,
        }
    }
}

/// The launch option values of a configuration document.
fn launch_options_in(root: &VdfValue) -> (r: Option<&Vec<VdfValue>>)
    ensures
        r matches Some(vs) ==> launch_option_values(*root) == Some(vs@),
        r is None ==> launch_option_values(*root) is None,
{
    let a = match root.first("Software") {
        Some(v) => v,
        None => {
            return None;
        },
    };
    let b = match a.first("Valve") {
        Some(v) => v,
        None => {
            return None;
        },
    };
    let c = match b.first("Steam") {
        Some(v) => v,
        None => {
            return None;
        },
    };
    let d = match c.first("apps") {
        Some(v) => v,
        None => {
            return None;
        },
    };
    let e = match d.first("440") {
        Some(v) => v,
        None => {
            return None;
        },
    };
    e.get("LaunchOptions")
}

/// A Steam user's configuration text with the recorder's flags added to the
/// game's launch options: `Ok(None)` when every option already has them.
pub fn config_with_flags(config_text: &str) -> (r: Result<Option<String>, LaunchConfigError>)
    ensures
        r is Err <==> config_launch_options(config_text@) is None,
        r == Err::<Option<String>, LaunchConfigError>(LaunchConfigError::InvalidVdf) <==> parsed_vdf(
            config_text@,
        ) is None,
        r matches Ok(None) ==> (config_launch_options(config_text@) matches Some(opts) && !needs_flags(
            opts,
        )),
        r matches Ok(Some(t)) ==> (config_launch_options(config_text@) matches Some(opts)
            && needs_flags(opts) && t@ == flagged_config(config_text@, opts)),
{
    let doc = match vdf_parse(config_text) {
        Some(d) => d,
        None => {
            return Err(LaunchConfigError::InvalidVdf);
        },
    };
    let opts = match launch_options_in(&doc.1) {
        Some(o) => o,
        None => {
            return Err(LaunchConfigError::NoLaunchOptions);
        },
    };
    let ghost ov = opts@;
    let mut text = chars_of(config_text);
    let mut changed = false;
    let mut i: usize = 0;
    while i < opts.len()
        invariant
            i <= ov.len(),
            ov == opts@,
            text@ == flagged_config(config_text@, ov.take(i as int)),
            changed == needs_flags(ov.take(i as int)),
        decreases opts.len() - i,
    {
        let ghost pre = ov.take(i as int);
        assert(ov.take(i + 1).drop_last() =~= pre);
        assert(ov.take(i + 1).last() == ov[i as int]);
        match &opts[i] {
            VdfValue::Str(s) => {
                match launch_options_with_flags(s.as_str()) {
                    Some(flagged) => {
                        text = replace_all(&text, &chars_of(s.as_str()), &chars_of(flagged.as_str()));
                        changed = true;
                        assert(lacks_flags(ov.take(i + 1)[i as int]));
                    },
                    None => {},
                }
            },
            VdfValue::Obj(_) => {},
        }
        proof {
            if needs_flags(ov.take(i + 1)) {
                let j = choose|j: int| 0 <= j < i + 1 && lacks_flags(#[trigger] ov.take(i + 1)[j]);
                if j < i {
                    assert(pre[j] == ov.take(i + 1)[j]);
                }
            }
            if needs_flags(pre) {
                let j = choose|j: int| 0 <= j < i && lacks_flags(#[trigger] pre[j]);
                assert(pre[j] == ov.take(i + 1)[j]);
            }
        }
        i = i + 1;
    }
    assert(ov.take(ov.len() as int) =~= ov);
    if changed {
        Ok(Some(string_of(&text)))
    } else {
        Ok(None)
    }
}

/// The Steam id `id64` is one that steamid-ng accepts: its account type
/// (bits 52 to 55) is at most 10 and its universe (bits 56 to 63) at most 5.
pub open spec fn steam_id_accepted(id64: u64) -> bool {
    (id64 as int / 0x10_0000_0000_0000) % 16 <= 10 && id64 as int / 0x100_0000_0000_0000 <= 5
}

/// The account id of the Steam id `id64` (`SteamID::try_from`, then
/// `account_id`): its low 32 bits, when steamid-ng accepts the id.
#[verifier::external_body]
fn account_id_of(id64: u64) -> (r: Option<u32>)
    ensures
        r is Some <==> steam_id_accepted(id64),
        r matches Some(a) ==> a as int == id64 as int % 0x1_0000_0000,
{
    steamid_ng::SteamID::try_from(id64).ok().map(|s| s.account_id())
}

/// Where Steam keeps the configuration of the user with Steam id `id64`:
/// `userdata/<account id>/config/localconfig.vdf` in the Steam folder.
pub open spec fn local_config_file(steam_dir: Seq<char>, id64: u64) -> Seq<char> {
    path_push(
        path_push(
            path_push(path_push(steam_dir, "userdata"@), decimal((id64 as int % 0x1_0000_0000) as nat)),
            "config"@,
        ),
        "localconfig.vdf"@,
    )
}

/// The configuration file of the Steam user `id64`, or `None` when the id is
/// not one steamid-ng accepts.
pub fn local_config_path(steam_dir: &str, id64: u64) -> (r: Option<String>)
    ensures
        r is Some <==> steam_id_accepted(id64),
        r matches Some(p) ==> p@ == local_config_file(steam_dir@, id64),
{
    let account = match account_id_of(id64) {
        Some(a) => a,
        None => {
            return None;
        },
    };
    let mut digits: Vec<char> = Vec::new();
    push_decimal(&mut digits, account as u64);
    assert(digits@ =~= decimal((id64 as int % 0x1_0000_0000) as nat));
    let a = join_path(steam_dir, "userdata");
    let b = join_path(a.as_str(), string_of(&digits).as_str());
    let c = join_path(b.as_str(), "config");
    Some(join_path(c.as_str(), "localconfig.vdf"))
}

} // verus!
