use vstd::prelude::*;
use vstd::string::*;
use crate::errors::{Fault, NayiError};
use crate::quicknet::{
    networkd_config, networkd_file, parse_quicknet_words, quicknet_fault,
    quicknet_rule, QuickNet,
};
use crate::json::json_object_text;
use crate::replace_token::{token_hook_fault, token_hook_rule, HookReplaceToken};
use crate::text::{concat, concat3, same, split_words, words};

verus! {

/// What a hook did, with the hook itself as a JSON text.
#[derive(Debug, Clone)]
pub enum ActionHook {
    QuickNet(String),
    ReplaceToken(String),
    Uncomment(String),
}

/// What is left to do for a hook once its command is understood.
#[derive(Debug)]
pub enum HookPlan {
    /// Print `content`, or create `dir` and write `content` to `filename`.
    QuickNet { hook: QuickNet, dir: String, filename: String, content: String },
    /// Read the template, fill it, and print the result or write it to `output`.
    ReplaceToken { hook: HookReplaceToken, output: String },
}

/// Why a hook command is refused, if it is. Its first word must be the
/// name of a hook: `@quicknet`, `@replace-token` or `@uncomment`.
pub open spec fn hook_fault(cmd: Seq<char>) -> Option<Fault> {
    let w = words(cmd);
    if w.len() == 0 {
        Some(Fault::BadManifest("empty hook"@))
    } else if w[0] == "@quicknet"@ {
        if quicknet_rule(w) is Some {
            None
        } else {
            Some(quicknet_fault(w))
        }
    } else if w[0] == "@replace-token"@ {
        if token_hook_rule(cmd) is Some {
            None
        } else {
            Some(token_hook_fault(cmd))
        }
    } else if w[0] == "@uncomment"@ {
        Some(Fault::NotImplemented)
    } else {
        Some(Fault::BadArgs("bad hook cmd: "@ + w[0]))
    }
}

/// The root that a hook works below: `/` inside the installed system.
pub open spec fn hook_root(in_chroot: bool, root_location: Seq<char>) -> Seq<char> {
    if in_chroot {
        "/"@
    } else {
        root_location
    }
}

/// A plan is the one that the words of a hook command ask for.
pub open spec fn plan_fits(plan: HookPlan, cmd: Seq<char>, root: Seq<char>) -> bool {
    let w = words(cmd);
    match plan {
        HookPlan::QuickNet { hook, dir, filename, content } => {
            &&& w.len() > 0 && w[0] == "@quicknet"@
            &&& quicknet_rule(w) == Some(hook@)
            &&& dir@ == root + "/etc/systemd/network"@
            &&& filename@ == root + "/"@ + networkd_file(hook.interface@)
            &&& content@ == networkd_config(hook@)
        },
        HookPlan::ReplaceToken { hook, output } => {
            &&& w.len() > 0 && w[0] == "@replace-token"@
            &&& token_hook_rule(cmd) == Some((hook.rp@, hook.mode_hook))
            &&& output@ == (if root == "/"@ {
                hook.rp.output@
            } else {
                "/"@ + root + "/"@ + hook.rp.output@
            })
        },
    }
}

/// Understands a hook command and says what is to be done for it.
///
/// The command's first word names the hook. An empty command, an unknown
/// hook and a malformed command are refused, each with its own failure.
pub fn apply_hook(hook_cmd: &str, in_chroot: bool, root_location: &str) -> (res: Result<
    HookPlan,
    NayiError,
>)
    ensures
        match res {
            Ok(plan) => hook_fault(hook_cmd@) is None && plan_fits(
                plan,
                hook_cmd@,
                hook_root(in_chroot, root_location@),
            ),
            Err(e) => hook_fault(hook_cmd@) == Some(e.fault()),
        },
{
    let parts = split_words(hook_cmd);
    let ghost w = words(hook_cmd@);
    if parts.len() == 0 {
        return Err(NayiError::BadManifest(String::from_str("empty hook")));
    }
    assert(w[0] == parts@[0]@);
    let root = if in_chroot {
        "/"
    } else {
        root_location
    };
    let hook = parts[0].as_str();
    if same(hook, "@quicknet") {
        match parse_quicknet_words(&parts) {
            Err(err) => Err(err),
            Ok(qn) => {
                let dir = concat(root, "/etc/systemd/network");
                let name = qn.file_name();
                let filename = concat3(root, "/", name.as_str());
                let content = qn.encode_to_string();
                Ok(HookPlan::QuickNet { hook: qn, dir, filename, content })
            },
        }
    } else if same(hook, "@replace-token") {
        match HookReplaceToken::try_from(hook_cmd) {
            Err(err) => Err(err),
            Ok(rt) => {
                let output = rt.rp.output_location(root);
                Ok(HookPlan::ReplaceToken { hook: rt, output })
            },
        }
    } else if same(hook, "@uncomment") {
        Err(NayiError::NotImplemented)
    } else {
        Err(NayiError::BadArgs(concat("bad hook cmd: ", hook)))
    }
}

impl HookPlan {
    /// The record of this hook once it has been carried out.
    pub fn action(&self) -> (a: ActionHook)
        ensures
            match self {
                HookPlan::QuickNet { hook, .. } => a is QuickNet && a->QuickNet_0@
                    == json_object_text(
                    seq!["interface"@, "dns_upstream"@],
                    seq![Some(hook.interface@), hook@.dns_upstream],
                ),
                HookPlan::ReplaceToken { hook, .. } => a is ReplaceToken && a->ReplaceToken_0@
                    == json_object_text(
                    seq!["token"@, "value"@, "template"@, "output"@],
                    seq![
                        Some(hook.rp.token@),
                        Some(hook.rp.value@),
                        Some(hook.rp.template@),
                        Some(hook.rp.output@),
                    ],
                ),
            },
    {
        match self {
            HookPlan::QuickNet { hook, .. } => ActionHook::QuickNet(hook.to_json_string()),
            HookPlan::ReplaceToken { hook, .. } => ActionHook::ReplaceToken(
                hook.rp.to_json_string(),
            ),
        }
    }
}

} // verus!
