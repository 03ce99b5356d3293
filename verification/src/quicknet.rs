use vstd::prelude::*;
use vstd::string::*;
use crate::errors::{Fault, NayiError};
use crate::json::{json_object, json_object_text};
use crate::text::{concat, decimal, same, split_words, to_decimal, words};

verus! {

/// A network quick setup: DHCP on one interface, with a DNS upstream if one
/// is given.
#[derive(Debug)]
pub struct QuickNet {
    pub interface: String,
    pub dns_upstream: Option<String>,
    pub print_only: bool,
}

/// Mathematical model of a [`QuickNet`].
pub struct QuickNetView {
    pub interface: Seq<char>,
    pub dns_upstream: Option<Seq<char>>,
    pub print_only: bool,
}

impl View for QuickNet {
    type V = QuickNetView;

    open spec fn view(&self) -> QuickNetView {
        QuickNetView {
            interface: self.interface@,
            dns_upstream: match self.dns_upstream {
                Some(s) => Some(s@),
                None => None,
            },
            print_only: self.print_only,
        }
    }
}

/// The word is one of the two names of the hook.
pub open spec fn quicknet_key(word: Seq<char>) -> bool {
    word == "@quicknet"@ || word == "@quicknet-print"@
}

/// Where the keyword `dns` stands first among four words, or 4.
pub open spec fn dns_at(w: Seq<Seq<char>>) -> int {
    if w[0] == "dns"@ {
        0
    } else if w[1] == "dns"@ {
        1
    } else if w[2] == "dns"@ {
        2
    } else if w[3] == "dns"@ {
        3
    } else {
        4
    }
}

/// What a hook command of these words asks for, if it is well formed:
/// `@quicknet <interface>`, `@quicknet dns <upstream> <interface>` or
/// `@quicknet <interface> dns <upstream>`; `@quicknet-print` only prints.
pub open spec fn quicknet_rule(w: Seq<Seq<char>>) -> Option<QuickNetView> {
    if w.len() <= 1 || !quicknet_key(w[0]) {
        None
    } else if w.len() == 2 {
        if w[1] == "dns"@ {
            None
        } else {
            Some(
                QuickNetView {
                    interface: w[1],
                    dns_upstream: None,
                    print_only: w[0] == "@quicknet-print"@,
                },
            )
        }
    } else if w.len() == 4 && dns_at(w) == 1 {
        Some(
            QuickNetView {
                interface: w[3],
                dns_upstream: Some(w[2]),
                print_only: w[0] == "@quicknet-print"@,
            },
        )
    } else if w.len() == 4 && dns_at(w) == 2 {
        Some(
            QuickNetView {
                interface: w[1],
                dns_upstream: Some(w[3]),
                print_only: w[0] == "@quicknet-print"@,
            },
        )
    } else {
        None
    }
}

/// Why a hook command of these words is refused, where [`quicknet_rule`]
/// gives nothing.
pub open spec fn quicknet_fault(w: Seq<Seq<char>>) -> Fault {
    Fault::BadHookCmd(
        "@quicknet: "@ + (if w.len() <= 1 {
            "bad cmd: only 1 string is supplied"@
        } else if !quicknet_key(w[0]) {
            "bad cmd: 1st part does not start with \"@quicknet\""@
        } else if w.len() == 2 {
            "got only keyword `dns`"@
        } else if w.len() != 4 {
            "unexpected cmd parts: "@ + decimal(w.len())
        } else if dns_at(w) == 4 {
            "missing argument keyword \"dns\""@
        } else {
            "\"dns\" keyword in bad position: "@ + decimal(dns_at(w) as nat)
        }),
    )
}

/// The systemd-networkd configuration of a quick setup.
pub open spec fn networkd_config(q: QuickNetView) -> Seq<char> {
    let dhcp = "# Installed by ali-rs hook @quicknet\n[Match]\nName="@ + q.interface
        + "\n\n[Network]\nDHCP=yes\n"@;
    match q.dns_upstream {
        Some(upstream) => dhcp + "\n# Installed by ali-rs hook @quicknet\nDNS="@ + upstream + "\n"@,
        None => dhcp,
    }
}

/// Path, below the root of the installed system, of the configuration file
/// for an interface.
pub open spec fn networkd_file(interface: Seq<char>) -> Seq<char> {
    "etc/systemd/network/00-quicknet-"@ + interface + ".conf"@
}

fn bad_cmd(reason: &str) -> (e: NayiError)
    ensures
        e.fault() == Fault::BadHookCmd("@quicknet: "@ + reason@),
{
    NayiError::BadHookCmd(concat("@quicknet: ", reason))
}

/// Reads a quick setup from the words of its hook command.
pub fn parse_quicknet_words(parts: &Vec<String>) -> (res: Result<QuickNet, NayiError>)
    ensures
        match res {
            Ok(q) => quicknet_rule(crate::state::names_view(parts@)) == Some(q@),
            Err(e) => quicknet_rule(crate::state::names_view(parts@)) is None && e.fault()
                == quicknet_fault(crate::state::names_view(parts@)),
        },
{
    let ghost w = crate::state::names_view(parts@);
    let l = parts.len();
    if l <= 1 {
        return Err(bad_cmd("bad cmd: only 1 string is supplied"));
    }
    assert(w[0] == parts@[0]@);
    let normal = same(parts[0].as_str(), "@quicknet");
    let print_only = same(parts[0].as_str(), "@quicknet-print");
    if !normal && !print_only {
        return Err(bad_cmd("bad cmd: 1st part does not start with \"@quicknet\""));
    }
    if l == 2 {
        assert(w[1] == parts@[1]@);
        if same(parts[1].as_str(), "dns") {
            return Err(bad_cmd("got only keyword `dns`"));
        }
        return Ok(QuickNet { interface: parts[1].clone(), dns_upstream: None, print_only });
    }
    if l != 4 {
        let count = to_decimal(l);
        let reason = concat("unexpected cmd parts: ", count.as_str());
        return Err(bad_cmd(reason.as_str()));
    }
    assert(w[1] == parts@[1]@ && w[2] == parts@[2]@ && w[3] == parts@[3]@);
    if same(parts[0].as_str(), "dns") {
        let at = to_decimal(0);
        let reason = concat("\"dns\" keyword in bad position: ", at.as_str());
        return Err(bad_cmd(reason.as_str()));
    }
    if same(parts[1].as_str(), "dns") {
        return Ok(
            QuickNet {
                interface: parts[3].clone(),
                dns_upstream: Some(parts[2].clone()),
                print_only,
            },
        );
    }
    if same(parts[2].as_str(), "dns") {
        return Ok(
            QuickNet {
                interface: parts[1].clone(),
                dns_upstream: Some(parts[3].clone()),
                print_only,
            },
        );
    }
    if same(parts[3].as_str(), "dns") {
        let at = to_decimal(3);
        let reason = concat("\"dns\" keyword in bad position: ", at.as_str());
        return Err(bad_cmd(reason.as_str()));
    }
    Err(bad_cmd("missing argument keyword \"dns\""))
}

/// Reads a quick setup from its hook command:
/// `@quicknet [dns <DNS_UPSTREAM>] <INTERFACE>`.
pub fn parse_quicknet(cmd: &str) -> (res: Result<QuickNet, NayiError>)
    ensures
        match res {
            Ok(q) => quicknet_rule(words(cmd@)) == Some(q@),
            Err(e) => quicknet_rule(words(cmd@)) is None && e.fault() == quicknet_fault(
                words(cmd@),
            ),
        },
{
    let parts = split_words(cmd);
    parse_quicknet_words(&parts)
}

impl QuickNet {
    /// The systemd-networkd configuration of this setup.
    pub fn encode_to_string(&self) -> (s: String)
        ensures
            s@ == networkd_config(self@),
    {
        let mut s = String::from_str("# Installed by ali-rs hook @quicknet\n[Match]\nName=");
        s.append(self.interface.as_str());
        s.append("\n\n[Network]\nDHCP=yes\n");
        match &self.dns_upstream {
            Some(upstream) => {
                s.append("\n# Installed by ali-rs hook @quicknet\nDNS=");
                s.append(upstream.as_str());
                s.append("\n");
            },
            None => {},
        }
        s
    }

    /// Path of the configuration file below the root of the installed system.
    pub fn file_name(&self) -> (s: String)
        ensures
            s@ == networkd_file(self.interface@),
    {
        let mut s = String::from_str("etc/systemd/network/00-quicknet-");
        s.append(self.interface.as_str());
        s.append(".conf");
        s
    }

    /// This setup as a JSON object with the members `interface` and
    /// `dns_upstream`.
    pub fn to_json_string(&self) -> (s: String)
        ensures
            s@ == json_object_text(
                seq!["interface"@, "dns_upstream"@],
                seq![Some(self.interface@), self@.dns_upstream],
            ),
    {
        let mut keys: Vec<String> = Vec::new();
        keys.push(String::from_str("interface"));
        keys.push(String::from_str("dns_upstream"));
        let mut values: Vec<Option<String>> = Vec::new();
        values.push(Some(self.interface.clone()));
        values.push(
            match &self.dns_upstream {
                Some(s) => Some(s.clone()),
                None => None,
            },
        );
        assert(crate::state::names_view(keys@) =~= seq!["interface"@, "dns_upstream"@]);
        assert(crate::json::options_view(values@) =~= seq![
            Some(self.interface@),
            self@.dns_upstream,
        ]);
        json_object(&keys, &values)
    }
}

} // verus!
