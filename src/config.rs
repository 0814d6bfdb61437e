//! Per-source settings, their redacted display, and the order in which a
//! credential is looked for.
use vstd::prelude::*;
use crate::normalize::join_with;
use crate::text::{chars_of, joined, string_of, trim_chars, trimmed};

verus! {

/// Settings of one source.
#[derive(Debug, Clone, Default)]
pub struct SourceConfig {
    pub api_key: Option<String>,
    pub api_key_command: Option<String>,
    pub default_tag: Option<String>,
    pub base_url: Option<String>,
}

/// Settings of every source.
#[derive(Debug, Clone, Default)]
pub struct TssConfig {
    pub fireflies: Option<SourceConfig>,
    pub pocket: Option<SourceConfig>,
}

/// The text of a fresh configuration file.
pub const DEFAULT_CONFIG_TEMPLATE: &'static str = "# ~/.tss/config.toml
# Credential resolution order: CLI flag > env var > api_key > api_key_command

[fireflies]
# api_key = \"your-fireflies-api-key\"
# api_key_command = \"your-secrets-manager-command-here\"

[pocket]
# api_key = \"your-pocket-api-key\"
# api_key_command = \"your-secrets-manager-command-here\"
# default_tag = \"your-tag-name\"
";

pub fn default_config_template() -> (r: &'static str)
    ensures
        r@ == DEFAULT_CONFIG_TEMPLATE@,
{
    DEFAULT_CONFIG_TEMPLATE
}

/// A key as shown: its first and last four characters around `...` when it
/// is longer than eight characters, else `****`.
pub open spec fn redacted_of(key: Seq<char>) -> Seq<char> {
    if key.len() > 8 {
        key.subrange(0, 4) + "..."@ + key.subrange(key.len() - 4, key.len() as int)
    } else {
        "****"@
    }
}

/// `  name = "value"`.
pub open spec fn setting_line(name: Seq<char>, value: Seq<char>) -> Seq<char> {
    "  "@ + name + " = \""@ + value + "\""@
}

pub open spec fn opt_line(name: Seq<char>, v: Option<String>) -> Seq<Seq<char>> {
    match v {
        Some(t) => seq![setting_line(name, t@)],
        None => Seq::empty(),
    }
}

/// The display lines of one source's settings; the key is redacted.
pub open spec fn source_lines(sc: SourceConfig) -> Seq<Seq<char>> {
    let key = match sc.api_key {
        Some(k) => seq![setting_line("api_key"@, redacted_of(k@))],
        None => Seq::empty(),
    };
    key + opt_line("api_key_command"@, sc.api_key_command) + opt_line("default_tag"@, sc.default_tag)
        + opt_line("base_url"@, sc.base_url)
}

pub open spec fn section_lines(header: Seq<char>, sc: Option<SourceConfig>) -> Seq<Seq<char>> {
    match sc {
        Some(c) => seq![header] + source_lines(c),
        None => Seq::empty(),
    }
}

pub open spec fn config_lines(c: TssConfig) -> Seq<Seq<char>> {
    let l = section_lines("[fireflies]"@, c.fireflies) + section_lines("[pocket]"@, c.pocket);
    if l.len() == 0 {
        seq!["(no sources configured)"@]
    } else {
        l
    }
}

fn redact(key: &str) -> (r: String)
    ensures
        r@ == redacted_of(key@),
{
    let cs = chars_of(key);
    let n = cs.len();
    if n > 8 {
        let mut head: Vec<char> = Vec::new();
        let mut i: usize = 0;
        while i < 4
            invariant
                i <= 4 < n,
                n == cs.len(),
                cs@ == key@,
                head@ == key@.subrange(0, i as int),
            decreases 4 - i,
        {
            head.push(cs[i]);
            i = i + 1;
        }
        let mut tail: Vec<char> = Vec::new();
        let mut j: usize = n - 4;
        while j < n
            invariant
                n - 4 <= j <= n,
                n > 8,
                n == cs.len(),
                cs@ == key@,
                tail@ == key@.subrange(n - 4, j as int),
            decreases n - j,
        {
            tail.push(cs[j]);
            j = j + 1;
        }
        let h = string_of(head.as_slice());
        let t = string_of(tail.as_slice());
        joined(joined(h.as_str(), "...").as_str(), t.as_str())
    } else {
        String::from_str("****")
    }
}

fn setting(name: &str, value: &str) -> (r: String)
    ensures
        r@ == setting_line(name@, value@),
{
    let a = joined("  ", name);
    let b = joined(a.as_str(), " = \"");
    let c = joined(b.as_str(), value);
    joined(c.as_str(), "\"")
}

fn push_opt(lines: &mut Vec<String>, name: &str, v: &Option<String>)
    ensures
        final(lines)@.map_values(|s: String| s@) == old(lines)@.map_values(|s: String| s@) + opt_line(
            name@,
            *v,
        ),
{
    let ghost before = lines@;
    match v {
        Some(t) => {
            lines.push(setting(name, t.as_str()));
            assert(lines@.map_values(|s: String| s@) =~= before.map_values(|s: String| s@) + opt_line(name@, *v));
        },
        None => {
            assert(lines@.map_values(|s: String| s@) =~= before.map_values(|s: String| s@) + opt_line(name@, *v));
        },
    }
}

/// Append the display lines of one source's settings.
pub fn display_source_config(lines: &mut Vec<String>, sc: &SourceConfig)
    ensures
        final(lines)@.map_values(|s: String| s@) == old(lines)@.map_values(|s: String| s@) + source_lines(*sc),
{
    let ghost start = lines@.map_values(|s: String| s@);
    match &sc.api_key {
        Some(k) => {
            let ghost before = lines@;
            lines.push(setting("api_key", redact(k.as_str()).as_str()));
            assert(lines@.map_values(|s: String| s@) =~= before.map_values(|s: String| s@).push(
                setting_line("api_key"@, redacted_of(k@)),
            ));
        },
        None => {},
    }
    push_opt(lines, "api_key_command", &sc.api_key_command);
    push_opt(lines, "default_tag", &sc.default_tag);
    push_opt(lines, "base_url", &sc.base_url);
    proof {
        let key: Seq<Seq<char>> = match &sc.api_key {
            Some(k) => seq![setting_line("api_key"@, redacted_of(k@))],
            None => Seq::empty(),
        };
        assert(start + key + opt_line("api_key_command"@, sc.api_key_command) + opt_line(
            "default_tag"@,
            sc.default_tag,
        ) + opt_line("base_url"@, sc.base_url) =~= start + source_lines(*sc));
    }
}

fn join_lines(lines: &Vec<String>) -> (r: String)
    ensures
        r@ == join_with(lines@.map_values(|s: String| s@), "\n"@),
{
    let ghost all = lines@.map_values(|s: String| s@);
    let mut r = String::new();
    let mut i: usize = 0;
    proof {
        reveal_strlit("");
        assert(all.subrange(0, 0) =~= Seq::<Seq<char>>::empty());
    }
    while i < lines.len()
        invariant
            i <= lines.len(),
            all == lines@.map_values(|s: String| s@),
            r@ == join_with(all.subrange(0, i as int), "\n"@),
        decreases lines.len() - i,
    {
        proof {
            assert(all.subrange(0, i + 1).drop_last() =~= all.subrange(0, i as int));
        }
        if i == 0 {
            r = lines[0].clone();
            proof {
                assert(all.subrange(0, 1) =~= seq![all[0]]);
            }
        } else {
            r = joined(joined(r.as_str(), "\n").as_str(), lines[i].as_str());
        }
        i = i + 1;
    }
    proof {
        assert(all.subrange(0, lines.len() as int) =~= all);
    }
    r
}

impl TssConfig {
    /// The settings of a source by its name; none for an unknown source.
    pub fn source_config(&self, source: &str) -> (r: Option<&SourceConfig>)
        ensures
            source@ == "fireflies"@ ==> r == match self.fireflies {
                Some(c) => Some(&c),
                None => None::<&SourceConfig>,
            },
            source@ == "pocket"@ ==> r == match self.pocket {
                Some(c) => Some(&c),
                None => None::<&SourceConfig>,
            },
            source@ != "fireflies"@ && source@ != "pocket"@ ==> r is None,
    {
        proof {
            reveal_strlit("fireflies");
            reveal_strlit("pocket");
            assert("fireflies"@[0] != "pocket"@[0]);
            assert("fireflies"@ != "pocket"@);
        }
        let s = String::from_str(source);
        if s == String::from_str("fireflies") {
            self.fireflies.as_ref()
        } else if s == String::from_str("pocket") {
            self.pocket.as_ref()
        } else {
            None
        }
    }

    /// The settings as text, one line each, with every key redacted.
    pub fn display_redacted(&self) -> (r: String)
        ensures
            r@ == join_with(config_lines(*self), "\n"@),
    {
        let mut lines: Vec<String> = Vec::new();
        let ghost empty = lines@.map_values(|s: String| s@);
        assert(empty =~= Seq::<Seq<char>>::empty());
        match &self.fireflies {
            Some(ff) => {
                lines.push(String::from_str("[fireflies]"));
                display_source_config(&mut lines, ff);
            },
            None => {},
        }
        let ghost mid = lines@.map_values(|s: String| s@);
        assert(mid =~= section_lines("[fireflies]"@, self.fireflies));
        match &self.pocket {
            Some(pk) => {
                lines.push(String::from_str("[pocket]"));
                display_source_config(&mut lines, pk);
            },
            None => {},
        }
        assert(lines@.map_values(|s: String| s@) =~= section_lines("[fireflies]"@, self.fireflies)
            + section_lines("[pocket]"@, self.pocket));
        if lines.len() == 0 {
            lines.push(String::from_str("(no sources configured)"));
            assert(lines@.map_values(|s: String| s@) =~= seq!["(no sources configured)"@]);
        }
        join_lines(&lines)
    }
}

/// Where the credential search stands after the settings that need no command.
#[derive(Debug)]
pub enum CredentialStep {
    /// A non-empty key was found.
    Found { key: String },
    /// No key yet: run this command and take its trimmed output.
    RunCommand { command: String },
    /// Nothing is configured that could give a key.
    Missing,
}

pub open spec fn filled(v: Option<String>) -> bool {
    v matches Some(t) && t@.len() > 0
}

fn is_filled(v: &Option<String>) -> (r: bool)
    ensures
        r == filled(*v),
{
    match v {
        Some(t) => t.as_str().unicode_len() > 0,
        None => false,
    }
}

/// The credential search in order: explicit flag, environment variable, the
/// configured key, then the configured command. Empty values do not count.
pub fn resolve_credential(cli_flag: Option<String>, env_value: Option<String>, config: Option<&SourceConfig>) -> (r:
    CredentialStep)
    ensures
        filled(cli_flag) ==> r == (CredentialStep::Found { key: cli_flag->0 }),
        !filled(cli_flag) && filled(env_value) ==> r == (CredentialStep::Found { key: env_value->0 }),
        !filled(cli_flag) && !filled(env_value) ==> match config {
            Some(c) => if filled(c.api_key) {
                r matches CredentialStep::Found { key } && key@ == c.api_key->0@
            } else if filled(c.api_key_command) {
                r matches CredentialStep::RunCommand { command } && command@ == c.api_key_command->0@
            } else {
                r is Missing
            },
            None => r is Missing,
        },
{
    if is_filled(&cli_flag) {
        return CredentialStep::Found { key: cli_flag.unwrap() };
    }
    if is_filled(&env_value) {
        return CredentialStep::Found { key: env_value.unwrap() };
    }
    match config {
        Some(c) => {
            if is_filled(&c.api_key) {
                match &c.api_key {
                    Some(k) => CredentialStep::Found { key: k.clone() },
                    None => CredentialStep::Missing,
                }
            } else if is_filled(&c.api_key_command) {
                match &c.api_key_command {
                    Some(k) => CredentialStep::RunCommand { command: k.clone() },
                    None => CredentialStep::Missing,
                }
            } else {
                CredentialStep::Missing
            }
        },
        None => CredentialStep::Missing,
    }
}

/// The secret that a credential command printed: its output without outer
/// white space, where anything is left.
pub fn credential_from_output(output: &str) -> (r: Option<String>)
    ensures
        trimmed(output@).len() > 0 ==> (r matches Some(k) && k@ == trimmed(output@)),
        trimmed(output@).len() == 0 ==> r is None,
{
    let cs = chars_of(output);
    let t = trim_chars(cs.as_slice());
    if t.len() == 0 {
        None
    } else {
        Some(string_of(t.as_slice()))
    }
}

} // verus!
