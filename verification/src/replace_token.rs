use vstd::prelude::*;
use vstd::string::*;
use crate::errors::{Fault, NayiError};
use crate::json::{json_object, json_object_text};
use crate::state::names_view;
use crate::text::{
    concat, concat3, contains, decimal, has_sub, replace, replace_all, same, shell_split,
    shell_words, to_decimal,
};

verus! {

/// A token to replace in a template, with its value and the two files.
#[derive(Debug, Clone, PartialEq, Eq, Hash)]
pub struct ReplaceToken {
    pub token: String,
    pub value: String,
    pub template: String,
    pub output: String,
}

/// Mathematical model of a [`ReplaceToken`].
pub struct ReplaceTokenView {
    pub token: Seq<char>,
    pub value: Seq<char>,
    pub template: Seq<char>,
    pub output: Seq<char>,
}

impl View for ReplaceToken {
    type V = ReplaceTokenView;

    open spec fn view(&self) -> ReplaceTokenView {
        ReplaceTokenView {
            token: self.token@,
            value: self.value@,
            template: self.template@,
            output: self.output@,
        }
    }
}

/// Whether a hook writes its result or only prints it.
#[derive(Debug, Clone, Copy, PartialEq, Eq)]
pub enum ModeHook {
    Normal,
    Print,
}

/// A parsed `@replace-token` hook.
#[derive(Debug)]
pub struct HookReplaceToken {
    pub rp: ReplaceToken,
    pub mode_hook: ModeHook,
}

/// How a template marks the place of a token: the token between `{{ ` and ` }}`.
pub open spec fn marker(token: Seq<char>) -> Seq<char> {
    "{{ "@ + token + " }}"@
}

/// What a hook command of these words asks for, if it is well formed:
/// `@replace-token <TOKEN> <VALUE> <TEMPLATE> [OUTPUT]`, where the output is
/// the template itself unless one is given; `@replace-token-print` only prints.
pub open spec fn replace_token_rule(w: Seq<Seq<char>>) -> Option<(ReplaceTokenView, ModeHook)> {
    if (w.len() == 4 || w.len() == 5) && (w[0] == "@replace-token"@ || w[0]
        == "@replace-token-print"@) {
        Some(
            (
                ReplaceTokenView { token: w[1], value: w[2], template: w[3], output: w.last() },
                if w[0] == "@replace-token"@ {
                    ModeHook::Normal
                } else {
                    ModeHook::Print
                },
            ),
        )
    } else {
        None
    }
}

/// Why a hook command of these words is refused, where
/// [`replace_token_rule`] gives nothing.
pub open spec fn replace_token_fault(w: Seq<Seq<char>>) -> Fault {
    Fault::BadHookCmd(
        if w.len() == 0 {
            "@replace-token: "@ + "empty command"@
        } else if w[0] != "@replace-token"@ && w[0] != "@replace-token-print"@ {
            "unexpected key "@ + w[0]
        } else if w.len() < 3 {
            w[0] + ": expect at least 2 arguments"@
        } else {
            w[0] + ": bad cmd parts (expecting 3-4): "@ + decimal(w.len())
        },
    )
}

/// Why a hook command is refused, where [`token_hook_rule`] gives nothing.
pub open spec fn token_hook_fault(cmd: Seq<char>) -> Fault {
    match shell_words(cmd) {
        Some(w) => replace_token_fault(w),
        None => Fault::BadHookCmd("malformed hook cmd: "@ + cmd),
    }
}

/// What a hook command asks for, if it is well formed: the command is split
/// as a shell would, so that a value may hold blanks between quotes.
pub open spec fn token_hook_rule(cmd: Seq<char>) -> Option<(ReplaceTokenView, ModeHook)> {
    match shell_words(cmd) {
        Some(w) => replace_token_rule(w),
        None => None,
    }
}

impl HookReplaceToken {
    /// Reads the hook from the words of its command.
    pub fn from_words(parts: &Vec<String>) -> (res: Result<HookReplaceToken, NayiError>)
        ensures
            match res {
                Ok(h) => replace_token_rule(names_view(parts@)) == Some((h.rp@, h.mode_hook)),
                Err(e) => replace_token_rule(names_view(parts@)) is None && e.fault()
                    == replace_token_fault(names_view(parts@)),
            },
    {
        let ghost w = names_view(parts@);
        let l = parts.len();
        if l == 0 {
            return Err(NayiError::BadHookCmd(concat("@replace-token: ", "empty command")));
        }
        assert(w[0] == parts@[0]@);
        let mode_hook = if same(parts[0].as_str(), "@replace-token") {
            ModeHook::Normal
        } else if same(parts[0].as_str(), "@replace-token-print") {
            ModeHook::Print
        } else {
            return Err(NayiError::BadHookCmd(concat("unexpected key ", parts[0].as_str())));
        };
        if l < 3 {
            return Err(
                NayiError::BadHookCmd(concat(parts[0].as_str(), ": expect at least 2 arguments")),
            );
        }
        if l != 4 && l != 5 {
            let count = to_decimal(l);
            return Err(
                NayiError::BadHookCmd(
                    concat3(
                        parts[0].as_str(),
                        ": bad cmd parts (expecting 3-4): ",
                        count.as_str(),
                    ),
                ),
            );
        }
        assert(w[1] == parts@[1]@ && w[2] == parts@[2]@ && w[3] == parts@[3]@);
        assert(w.last() == parts@[l - 1]@);
        Ok(
            HookReplaceToken {
                mode_hook,
                rp: ReplaceToken {
                    token: parts[1].clone(),
                    value: parts[2].clone(),
                    template: parts[3].clone(),
                    output: parts[l - 1].clone(),
                },
            },
        )
    }

    /// Reads the hook from its command.
    pub fn try_from(s: &str) -> (res: Result<HookReplaceToken, NayiError>)
        ensures
            match res {
                Ok(h) => token_hook_rule(s@) == Some((h.rp@, h.mode_hook)),
                Err(e) => token_hook_rule(s@) is None && e.fault() == token_hook_fault(s@),
            },
    {
        match shell_split(s) {
            Some(parts) => HookReplaceToken::from_words(&parts),
            None => Err(NayiError::BadHookCmd(concat("malformed hook cmd: ", s))),
        }
    }

    /// The name under which the hook is registered.
    pub fn base_key(&self) -> (key: String)
        ensures
            key@ == "@replace-token"@,
    {
        String::from_str("@replace-token")
    }

    /// The arguments the hook takes.
    pub fn usage(&self) -> (text: String)
        ensures
            text@ == "<TOKEN> <VALUE> <TEMPLATE> [OUTPUT]"@,
    {
        String::from_str("<TOKEN> <VALUE> <TEMPLATE> [OUTPUT]")
    }

    /// Whether the hook writes or prints.
    pub fn mode(&self) -> (m: ModeHook)
        ensures
            m == self.mode_hook,
    {
        self.mode_hook
    }

    /// The hook never needs to run inside the installed system.
    pub fn should_chroot(&self) -> (b: bool)
        ensures
            !b,
    {
        false
    }

    /// The hook runs without a mounted target too.
    pub fn abort_if_no_mount(&self) -> (b: bool)
        ensures
            !b,
    {
        false
    }
}

/// Reads a `@replace-token` hook registered under the key `k`.
pub fn parse(k: &str, cmd: &str) -> (res: Result<HookReplaceToken, NayiError>)
    requires
        k@ == "@replace-token"@ || k@ == "@replace-token-print"@,
    ensures
        match res {
            Ok(h) => token_hook_rule(cmd@) == Some((h.rp@, h.mode_hook)),
            Err(e) => token_hook_rule(cmd@) is None && e.fault() == token_hook_fault(cmd@),
        },
{
    HookReplaceToken::try_from(cmd)
}

impl ReplaceToken {
    /// Fills the template text `s`: every marker of the token gives way to
    /// the value. A template without the marker is an error that names the
    /// template and the marker.
    pub fn replace(&self, s: &str) -> (res: Result<String, NayiError>)
        ensures
            match res {
                Ok(filled) => has_sub(s@, marker(self.token@)) && filled@ == replace_all(
                    s@,
                    marker(self.token@),
                    self.value@,
                ),
                Err(e) => !has_sub(s@, marker(self.token@)) && e.fault() == Fault::BadHookCmd(
                    "template "@ + self.template@ + " does not contains token \""@ + marker(
                        self.token@,
                    ) + "\""@,
                ),
            },
    {
        let token = concat3("{{ ", self.token.as_str(), " }}");
        if !contains(s, token.as_str()) {
            let head = concat3(
                "template ",
                self.template.as_str(),
                " does not contains token \"",
            );
            return Err(NayiError::BadHookCmd(concat3(head.as_str(), token.as_str(), "\"")));
        }
        Ok(replace(s, token.as_str(), self.value.as_str()))
    }

    /// Where the result goes: the output path as it is when the root is
    /// `/`, else below the root.
    pub fn output_location(&self, root_location: &str) -> (path: String)
        ensures
            path@ == (if root_location@ == "/"@ {
                self.output@
            } else {
                "/"@ + root_location@ + "/"@ + self.output@
            }),
    {
        if same(root_location, "/") {
            self.output.clone()
        } else {
            let mut path = String::from_str("/");
            path.append(root_location);
            path.append("/");
            path.append(self.output.as_str());
            path
        }
    }

    /// This hook as a JSON object with the members `token`, `value`,
    /// `template` and `output`.
    pub fn to_json_string(&self) -> (s: String)
        ensures
            s@ == json_object_text(
                seq!["token"@, "value"@, "template"@, "output"@],
                seq![
                    Some(self.token@),
                    Some(self.value@),
                    Some(self.template@),
                    Some(self.output@),
                ],
            ),
    {
        let mut keys: Vec<String> = Vec::new();
        keys.push(String::from_str("token"));
        keys.push(String::from_str("value"));
        keys.push(String::from_str("template"));
        keys.push(String::from_str("output"));
        let mut values: Vec<Option<String>> = Vec::new();
        values.push(Some(self.token.clone()));
        values.push(Some(self.value.clone()));
        values.push(Some(self.template.clone()));
        values.push(Some(self.output.clone()));
        assert(names_view(keys@) =~= seq!["token"@, "value"@, "template"@, "output"@]);
        assert(crate::json::options_view(values@) =~= seq![
            Some(self.token@),
            Some(self.value@),
            Some(self.template@),
            Some(self.output@),
        ]);
        json_object(&keys, &values)
    }
}

} // verus!
