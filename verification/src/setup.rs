//! Setting up local resources. Finding out about an account only reads; only a proposal that was shown
//! and explicitly confirmed is written.

use vstd::prelude::*;

use crate::presenter::{cleaned, sanitize};

use crate::yaml::{
    assign, assigned, can_take, entries_of, get, list, node, null, other_entries_stay, read,
    takes_entries, under, write_text, yaml_assigned, yaml_list, yaml_read, yaml_written,
};

use crate::text::{
    begins_with, byte_len, chars_of, decimal, decimal_of, fit, fitting, has_prefix, holds,
    holds_text, join_by, join_lines, joined_by, joined_lines, optional_str, part, put, same, texts,
};
use crate::digest::{file_hash, hash_text};
use crate::router::{
    ResourceConfig, ResourceProfile, ResourceTier, SubscriptionEvidence, ineligibility,
    same_profile,
};
use crate::bytes::{copy_bytes, same_bytes};

verus! {

/// What was found out about a provider's account.
#[derive(Debug, Clone, PartialEq, Eq)]
pub struct Discovery {
    pub executable: String,
    pub version: String,
    pub funding: String,
    pub account: String,
    pub claude: Option<SubscriptionEvidence>,
}

/// Whether the first `n` bytes of a text, or all of a shorter one, end between two characters.
pub open spec fn cuts_cleanly(s: Seq<char>, n: nat) -> bool {
    byte_len(fitting(s, n)) == (if byte_len(s) < n {
        byte_len(s)
    } else {
        n
    })
}

/// What was found out, in lines.
pub open spec fn discovery_text(d: Discovery) -> Seq<char> {
    d.version@ + "\nAccount fingerprint: "@ + fitting(d.account@, 12) + "\nFunding: "@ + d.funding@
        + " · quota may be unknown\nExecutable: "@ + d.executable@
}

impl Discovery {
    /// What was found out, in lines. Of the account only the first twelve bytes are shown.
    pub fn summary(&self) -> (r: String)
        requires
            cuts_cleanly(self.account@, 12),
        ensures
            r@ == discovery_text(*self),
    {
        let mut text = self.version.clone();
        text.push_str("\nAccount fingerprint: ");
        text.push_str(fit(self.account.as_str(), 12).as_str());
        text.push_str("\nFunding: ");
        text.push_str(self.funding.as_str());
        text.push_str(" · quota may be unknown\nExecutable: ");
        text.push_str(self.executable.as_str());
        text
    }
}

/// The agents that a provider may stand for.
#[derive(Debug, Clone, Copy, PartialEq, Eq, Structural)]
pub enum Agent {
    /// The one that reports its sessions by hooks.
    Claude,
    Codex,
    /// Any other one.
    Other,
}

/// A provider that can be set up: which agent it stands for, its word in commands and configuration, its
/// name, and whether its program is installed.
#[derive(Debug, Clone, PartialEq, Eq)]
pub struct Provider {
    pub agent: Agent,
    pub word: String,
    pub name: String,
    pub installed: bool,
}

/// The agent that a word in a configuration stands for, given the word that the program of the hooked agent
/// goes by.
pub fn agent_of(word: &str, claude: &str) -> (r: Agent)
    ensures
        r == (if word@ == claude@ {
            Agent::Claude
        } else if word@ == "codex"@ {
            Agent::Codex
        } else {
            Agent::Other
        }),
{
    if same(word, claude) {
        Agent::Claude
    } else if same(word, "codex") {
        Agent::Codex
    } else {
        Agent::Other
    }
}

/// Whether these are the providers that can be set up: Codex, and the hooked agent under its word and name.
pub open spec fn are_known(
    providers: Seq<Provider>,
    word: Seq<char>,
    name: Seq<char>,
    codex: bool,
    claude: bool,
) -> bool {
    &&& providers.len() == 2
    &&& providers[0].agent == Agent::Codex
    &&& providers[0].word@ == "codex"@
    &&& providers[0].name@ == "Codex"@
    &&& providers[0].installed == codex
    &&& providers[1].agent == Agent::Claude
    &&& providers[1].word@ == word
    &&& providers[1].name@ == name
    &&& providers[1].installed == claude
}

/// The providers that can be set up, and no others: Codex and the hooked agent. `word` and `name` are those
/// of the hooked agent; the flags say which of the two programs are installed.
pub fn known_providers(word: &str, name: &str, codex: bool, claude: bool) -> (r: Vec<Provider>)
    ensures
        are_known(r@, word@, name@, codex, claude),
        provider_words(r@) == seq!["codex"@, word@],
{
    let mut out: Vec<Provider> = Vec::new();
    out.push(
        Provider {
            agent: Agent::Codex,
            word: "codex".to_owned(),
            name: "Codex".to_owned(),
            installed: codex,
        },
    );
    out.push(
        Provider {
            agent: Agent::Claude,
            word: word.to_owned(),
            name: name.to_owned(),
            installed: claude,
        },
    );
    assert(provider_words(out@) =~= seq!["codex"@, word@]);
    out
}

/// The words of providers.
pub open spec fn provider_words(providers: Seq<Provider>) -> Seq<Seq<char>> {
    providers.map_values(|p: Provider| p.word@)
}

/// The names of providers.
pub open spec fn provider_names(providers: Seq<Provider>) -> Seq<Seq<char>> {
    providers.map_values(|p: Provider| p.name@)
}

fn words_of_providers(providers: &Vec<Provider>) -> (r: Vec<String>)
    ensures
        texts(r@) == provider_words(providers@),
{
    let ghost all = provider_words(providers@);
    let mut out: Vec<String> = Vec::new();
    let mut i: usize = 0;
    assert(texts(out@) =~= all.take(0));
    while i < providers.len()
        invariant
            i <= providers.len(),
            all == provider_words(providers@),
            texts(out@) == all.take(i as int),
        decreases providers.len() - i,
    {
        put(&mut out, providers[i].word.as_str());
        assert(all.take(i as int + 1) =~= all.take(i as int).push(all[i as int]));
        i += 1;
    }
    assert(all.take(providers@.len() as int) =~= all);
    out
}

fn names_of_providers(providers: &Vec<Provider>) -> (r: Vec<String>)
    ensures
        texts(r@) == provider_names(providers@),
{
    let ghost all = provider_names(providers@);
    let mut out: Vec<String> = Vec::new();
    let mut i: usize = 0;
    assert(texts(out@) =~= all.take(0));
    while i < providers.len()
        invariant
            i <= providers.len(),
            all == provider_names(providers@),
            texts(out@) == all.take(i as int),
        decreases providers.len() - i,
    {
        put(&mut out, providers[i].name.as_str());
        assert(all.take(i as int + 1) =~= all.take(i as int).push(all[i as int]));
        i += 1;
    }
    assert(all.take(providers@.len() as int) =~= all);
    out
}

/// Where the program of one of the known providers is, given where it was found; nothing that a
/// repository configures is ever run for setup.
pub fn executable(provider: &str, known: &Vec<Provider>, found: Option<String>) -> (r: Result<
    String,
    String,
>)
    ensures
        if !provider_words(known@).contains(provider@) {
            r matches Err(e) && e@ == "choose "@ + joined_by(provider_words(known@), " or "@)
        } else {
            match found {
                Some(path) => r == Ok::<String, String>(path),
                None => r matches Err(e) && e@ == provider@
                    + " is not installed on PATH. Install the provider CLI, then return to Resources."@,
            }
        },
{
    let words = words_of_providers(known);
    if !holds_text(&words, provider) {
        let mut text = "choose ".to_owned();
        text.push_str(join_by(&words, " or ").as_str());
        proof {
            assert(!provider_words(known@).contains(provider@)) by {
                if provider_words(known@).contains(provider@) {
                    let k = choose|k: int|
                        0 <= k < texts(words@).len() && texts(words@)[k] == provider@;
                    assert(words@[k]@ == provider@);
                }
            }
        }
        return Err(text);
    }
    proof {
        let k = choose|k: int| 0 <= k < words@.len() && (#[trigger] words@[k])@ == provider@;
        assert(texts(words@)[k] == provider@);
    }
    match found {
        Some(path) => Ok(path),
        None => {
            let mut text = provider.to_owned();
            text.push_str(
                " is not installed on PATH. Install the provider CLI, then return to Resources.",
            );
            Err(text)
        },
    }
}

/// A day in microseconds.
pub const DAY: i64 = 86_400_000_000;

/// What is found out about a subscription to a provider, whose program was asked at `now`. That anything is
/// included, that credits are off or that nobody manages the account is for a person to say.
pub fn discover_claude(
    provider: &str,
    executable: String,
    program: &Vec<u8>,
    version: Option<String>,
    account: String,
    now: i64,
) -> (r: Result<Discovery, String>)
    requires
        now <= i64::MAX - DAY,
    ensures
        match version {
            None => r matches Err(e) && e@
                == "provider version unavailable; install a supported CLI"@,
            Some(v) => {
                &&& r matches Ok(d)
                &&& d.executable == executable
                &&& d.version == v
                &&& d.funding@ == provider@ + "-subscription"@
                &&& d.account == account
                &&& d.claude matches Some(e)
                &&& e.contract_version == 1
                &&& e.cli_version == v
                &&& e.executable_sha256@ == hash_text(program@)
                &&& e.account_sha256 == account
                &&& e.checked_at == now
                &&& e.valid_until == now + DAY
                &&& !e.print_mode_included && !e.usage_credits_disabled && !e.unmanaged_account
            },
        },
{
    match version {
        None => Err("provider version unavailable; install a supported CLI".to_owned()),
        Some(v) => {
            let mut funding = provider.to_owned();
            funding.push_str("-subscription");
            let evidence = SubscriptionEvidence {
                contract_version: 1,
                cli_version: v.clone(),
                executable_sha256: file_hash(program.as_slice()),
                account_sha256: account.clone(),
                checked_at: now,
                valid_until: now + DAY,
                print_mode_included: false,
                usage_credits_disabled: false,
                unmanaged_account: false,
            };
            Ok(
                Discovery {
                    executable,
                    version: v,
                    funding,
                    account,
                    claude: Some(evidence),
                },
            )
        },
    }
}

/// What a provider reported of its account; nothing where it reported nothing.
#[derive(Debug, Clone, PartialEq, Eq)]
pub struct AccountFacts {
    pub auth_mode: Option<String>,
    pub plan: Option<String>,
    /// Paid credits or an unsupported service were seen.
    pub paid: bool,
    pub identity: Option<String>,
}

/// A text without any number of `sha256:` before it.
pub open spec fn bare_identity(s: Seq<char>) -> Seq<char>
    decreases s.len(),
{
    if begins_with(s, "sha256:"@) && "sha256:"@.len() > 0 {
        bare_identity(s.skip("sha256:"@.len() as int))
    } else {
        s
    }
}

fn strip_identity(s: &str) -> (r: String)
    ensures
        r@ == bare_identity(s@),
{
    proof {
        reveal_strlit("sha256:");
    }
    let chars = chars_of(s);
    let mut i: usize = 0;
    let mut rest = s.to_owned();
    assert(s@.skip(0) =~= s@);
    while has_prefix(rest.as_str(), "sha256:")
        invariant
            "sha256:"@.len() == 7,
            i <= chars.len(),
            chars@ == s@,
            rest@ == s@.skip(i as int),
            bare_identity(s@) == bare_identity(rest@),
        decreases chars.len() - i,
    {
        assert(rest@.skip(7) =~= s@.skip(i as int + 7));
        i += 7;
        rest = part(&chars, i, chars.len());
        assert(rest@ =~= s@.skip(i as int));
    }
    rest
}

/// Why an account is refused, if it is, in the order in which it is looked at.
pub open spec fn account_refusal(f: AccountFacts) -> Option<Seq<char>> {
    if !(f.auth_mode matches Some(m) && m@ == "chatgpt"@) {
        Some(
            "ChatGPT subscription login was not confirmed. Choose Login, then revalidate; API and unknown authentication cannot be included."@,
        )
    } else if f.plan is None {
        Some("subscription plan is unknown; no profile was authorized"@)
    } else if f.paid {
        Some("paid credits or unsupported service detected; no profile was authorized"@)
    } else if f.identity is None {
        Some("account identity is unknown; no profile was authorized"@)
    } else {
        None
    }
}

/// What is found out about an account, or why it is refused.
pub fn discover_codex(executable: String, version: Option<String>, facts: AccountFacts) -> (r: Result<
    Discovery,
    String,
>)
    ensures
        if version is None {
            r matches Err(e) && e@ == "provider version unavailable; install a supported CLI"@
        } else {
            match account_refusal(facts) {
                Some(reason) => r matches Err(e) && e@ == reason,
                None => {
                    &&& r matches Ok(d)
                    &&& d.executable == executable
                    &&& d.version == version->0
                    &&& d.funding@ == "chatgpt-"@ + facts.plan->0@
                    &&& d.account@ == bare_identity(facts.identity->0@)
                    &&& d.claude is None
                },
            }
        },
{
    let version = match version {
        Some(v) => v,
        None => {
            return Err("provider version unavailable; install a supported CLI".to_owned());
        },
    };
    let confirmed = match &facts.auth_mode {
        Some(m) => same(m.as_str(), "chatgpt"),
        None => false,
    };
    if !confirmed {
        return Err(
            "ChatGPT subscription login was not confirmed. Choose Login, then revalidate; API and unknown authentication cannot be included.".to_owned(),
        );
    }
    match &facts.plan {
        None => Err("subscription plan is unknown; no profile was authorized".to_owned()),
        Some(plan) => {
            if facts.paid {
                return Err(
                    "paid credits or unsupported service detected; no profile was authorized".to_owned(),
                );
            }
            match &facts.identity {
                None => Err("account identity is unknown; no profile was authorized".to_owned()),
                Some(identity) => {
                    let mut funding = "chatgpt-".to_owned();
                    funding.push_str(plan.as_str());
                    Ok(
                        Discovery {
                            executable,
                            version,
                            funding,
                            account: strip_identity(identity.as_str()),
                            claude: None,
                        },
                    )
                },
            }
        },
    }
}

/// The line of a profile in the status.
pub open spec fn profile_line(p: ResourceProfile, i: int) -> Seq<char> {
    "["@ + decimal((i + 1) as nat) + "] "@ + p.harness@ + " / "@ + p.model@ + " · "@ + (match p.effort {
        Some(effort) => effort@,
        None => "default effort"@,
    }) + "\n    "@ + (match ineligibility(p) {
        None => "funding configured · launch revalidation required"@,
        Some(reason) => "needs attention: "@ + reason,
    })
}

/// The lines of the status, before they are sanitized.
pub open spec fn status_lines(
    config: ResourceConfig,
    admission: bool,
    providers: Seq<Provider>,
) -> Seq<Seq<char>> {
    seq!["Accounts / Resources"@, "Local operation · no Dispatch login required"@] + (
    if config.allocation_enabled {
        Seq::empty()
    } else {
        seq!["Included-resource allocation is not configured."@]
    }) + (if admission {
        Seq::empty()
    } else {
        seq!["Shared admission is disabled; guided setup will not override this policy."@]
    }) + providers.map_values(|p: Provider| provider_line(p)) + Seq::new(
        config.profiles@.len(),
        |i: int| profile_line(config.profiles@[i], i),
    ) + (if config.profiles@.len() == 0 {
        seq!["No resource profiles. Add "@ + joined_by(provider_names(providers), " or "@)
            + " to begin."@]
    } else {
        Seq::empty()
    })
}

/// The line of a provider in the status.
pub open spec fn provider_line(p: Provider) -> Seq<char> {
    p.word@ + ": "@ + (if p.installed {
        "installed · auth checked on revalidation"@
    } else {
        "not found on PATH"@
    })
}

fn profile_text(p: &ResourceProfile, i: usize) -> (r: String)
    requires
        i < usize::MAX,
    ensures
        r@ == profile_line(*p, i as int),
{
    let mut text = "[".to_owned();
    text.push_str(decimal_of(i as u64 + 1).as_str());
    text.push_str("] ");
    text.push_str(p.harness.as_str());
    text.push_str(" / ");
    text.push_str(p.model.as_str());
    text.push_str(" · ");
    text.push_str(
        match &p.effort {
            Some(effort) => effort.as_str(),
            None => "default effort",
        },
    );
    text.push_str("\n    ");
    let ghost start = text@;
    match p.eligibility() {
        Ok(_) => {
            text.push_str("funding configured · launch revalidation required");
        },
        Err(e) => {
            text.push_str("needs attention: ");
            text.push_str(e.as_str());
            assert(text@ =~= start + ("needs attention: "@ + e@));
        },
    }
    text
}

/// The configured resources and what is missing, in lines.
pub fn status(config: &ResourceConfig, admission: bool, providers: &Vec<Provider>) -> (r: String)
    ensures
        r@ == cleaned(joined_lines(status_lines(*config, admission, providers@))),
{
    let mut lines: Vec<String> = Vec::new();
    put(&mut lines, "Accounts / Resources");
    put(&mut lines, "Local operation · no Dispatch login required");
    if !config.allocation_enabled {
        put(&mut lines, "Included-resource allocation is not configured.");
    }
    if !admission {
        put(
            &mut lines,
            "Shared admission is disabled; guided setup will not override this policy.",
        );
    }
    let ghost top = texts(lines@);
    let ghost known = providers@.map_values(|p: Provider| provider_line(p));
    assert(top =~= seq!["Accounts / Resources"@, "Local operation · no Dispatch login required"@]
        + (if config.allocation_enabled {
        Seq::empty()
    } else {
        seq!["Included-resource allocation is not configured."@]
    }) + (if admission {
        Seq::empty()
    } else {
        seq!["Shared admission is disabled; guided setup will not override this policy."@]
    }));
    let mut k: usize = 0;
    assert(top + known.take(0) =~= top);
    while k < providers.len()
        invariant
            k <= providers.len(),
            known == providers@.map_values(|p: Provider| provider_line(p)),
            texts(lines@) == top + known.take(k as int),
        decreases providers.len() - k,
    {
        let mut line = providers[k].word.clone();
        line.push_str(": ");
        line.push_str(
            if providers[k].installed {
                "installed · auth checked on revalidation"
            } else {
                "not found on PATH"
            },
        );
        put(&mut lines, line.as_str());
        assert(known.take(k as int + 1) =~= known.take(k as int).push(known[k as int]));
        k += 1;
        assert(texts(lines@) =~= top + known.take(k as int));
    }
    assert(known.take(providers@.len() as int) =~= known);
    let ghost head = texts(lines@);
    let ghost rows = Seq::new(
        config.profiles@.len(),
        |i: int| profile_line(config.profiles@[i], i),
    );
    let mut i: usize = 0;
    assert(head + rows.take(0) =~= head);
    while i < config.profiles.len()
        invariant
            i <= config.profiles.len(),
            rows == Seq::new(
                config.profiles@.len(),
                |i: int| profile_line(config.profiles@[i], i),
            ),
            texts(lines@) == head + rows.take(i as int),
        decreases config.profiles.len() - i,
    {
        let text = profile_text(&config.profiles[i], i);
        put(&mut lines, text.as_str());
        assert(rows.take(i as int + 1) =~= rows.take(i as int).push(rows[i as int]));
        i += 1;
        assert(texts(lines@) =~= head + rows.take(i as int));
    }
    assert(rows.take(config.profiles@.len() as int) =~= rows);
    if config.profiles.len() == 0 {
        let mut text = "No resource profiles. Add ".to_owned();
        text.push_str(join_by(&names_of_providers(providers), " or ").as_str());
        text.push_str(" to begin.");
        put(&mut lines, text.as_str());
    }
    assert(texts(lines@) =~= status_lines(*config, admission, providers@));
    sanitize(join_lines(&lines).as_str())
}

/// A change of the configuration that waits to be confirmed.
#[derive(Debug, Clone, PartialEq, Eq)]
pub struct Proposal {
    pub config: ResourceConfig,
    pub index: usize,
    /// The configuration as it was when the proposal was made.
    pub original: Option<Vec<u8>>,
    pub discovery: Discovery,
    /// The agent that it is for.
    pub agent: Agent,
}

/// The highest authorization revision of profiles.
pub open spec fn highest(profiles: Seq<ResourceProfile>) -> u64
    decreases profiles.len(),
{
    if profiles.len() == 0 {
        0
    } else if profiles.last().authorization_revision > highest(profiles.drop_last()) {
        profiles.last().authorization_revision
    } else {
        highest(profiles.drop_last())
    }
}

/// The larger of two revisions.
pub open spec fn later(a: u64, b: u64) -> u64 {
    if a > b {
        a
    } else {
        b
    }
}

fn find_highest(profiles: &Vec<ResourceProfile>) -> (r: u64)
    ensures
        r == highest(profiles@),
{
    let mut best: u64 = 0;
    let mut i: usize = 0;
    assert(profiles@.take(0) =~= Seq::empty());
    while i < profiles.len()
        invariant
            i <= profiles.len(),
            best == highest(profiles@.take(i as int)),
        decreases profiles.len() - i,
    {
        assert(profiles@.take(i as int + 1).drop_last() =~= profiles@.take(i as int));
        assert(profiles@.take(i as int + 1).last() == profiles@[i as int]);
        if profiles[i].authorization_revision > best {
            best = profiles[i].authorization_revision;
        }
        i += 1;
    }
    assert(profiles@.take(profiles@.len() as int) =~= profiles@);
    best
}

/// Whether a profile draws on the account that was found.
pub open spec fn shares(p: ResourceProfile, d: Discovery, provider: Provider) -> bool {
    p.enabled && p.harness@ == provider.word@ && (provider.agent == Agent::Codex && p.funding_source@ == d.funding@ || (
    p.claude_subscription matches Some(e) && e.account_sha256@ == d.account@))
}

/// The first profile from `i` on that draws on the account that was found.
pub open spec fn shared_from(
    profiles: Seq<ResourceProfile>,
    d: Discovery,
    provider: Provider,
    i: int,
) -> Option<int>
    decreases profiles.len() - i,
{
    if i < 0 || i >= profiles.len() {
        None
    } else if shares(profiles[i], d, provider) {
        Some(i)
    } else {
        shared_from(profiles, d, provider, i + 1)
    }
}

fn find_shared(profiles: &Vec<ResourceProfile>, d: &Discovery, provider: &Provider) -> (r: Option<usize>)
    ensures
        match r {
            Some(i) => i < profiles.len() && shared_from(profiles@, *d, *provider, 0) == Some(
                i as int,
            ),
            None => shared_from(profiles@, *d, *provider, 0) is None,
        },
{
    let codex = provider.agent == Agent::Codex;
    let mut i: usize = 0;
    while i < profiles.len()
        invariant
            i <= profiles.len(),
            codex == (provider.agent == Agent::Codex),
            shared_from(profiles@, *d, *provider, 0) == shared_from(
                profiles@,
                *d,
                *provider,
                i as int,
            ),
        decreases profiles.len() - i,
    {
        let p = &profiles[i];
        let account = match &p.claude_subscription {
            Some(e) => same(e.account_sha256.as_str(), d.account.as_str()),
            None => false,
        };
        if p.enabled && same(p.harness.as_str(), provider.word.as_str()) && (codex && same(
            p.funding_source.as_str(),
            d.funding.as_str(),
        ) || account) {
            return Some(i);
        }
        i += 1;
    }
    None
}

/// Why a proposal cannot be made, if it cannot, in the order in which it is looked at.
pub open spec fn proposal_refusal(
    config: ResourceConfig,
    admission: bool,
    d: Discovery,
    provider: Provider,
    existing: Option<usize>,
    retained: u64,
) -> Option<Seq<char>> {
    if !admission {
        Some(
            "shared admission is disabled; change that advanced policy explicitly before setup"@,
        )
    } else if later(highest(config.profiles@), retained) == u64::MAX {
        Some("authorization revision exhausted"@)
    } else {
        match existing {
            Some(i) => if i >= config.profiles@.len() {
                Some("resource selection changed"@)
            } else {
                let p = config.profiles@[i as int];
                if p.harness@ != provider.word@ || p.runtime@ != "local"@ || p.service_mode@
                    != "standard"@ {
                    Some(
                        "guided revalidation supports the selected provider in local standard mode only"@,
                    )
                } else if p.claude_subscription matches Some(e) && e.account_sha256@ != d.account@ {
                    Some(
                        "account changed: add a new resource explicitly; existing account scope was preserved"@,
                    )
                } else if p.funding_source@ != d.funding@ && provider.agent != Agent::Claude {
                    Some("subscription plan changed: add a new resource explicitly"@)
                } else if !p.enabled {
                    Some(
                        "disabled resources stay disabled; enable them explicitly in advanced configuration"@,
                    )
                } else {
                    None
                }
            },
            None => match shared_from(config.profiles@, d, provider, 0) {
                Some(i) => if config.profiles@[i].provider_buckets@.len() > 0 {
                    Some(
                        "existing account uses explicit bucket mappings; revalidate its existing profile instead"@,
                    )
                } else {
                    None
                },
                None => None,
            },
        }
    }
}

/// The pool of a new profile: that of the first profile on the same account, or one of its own.
pub open spec fn new_pool(profiles: Seq<ResourceProfile>, d: Discovery, provider: Provider) -> Seq<
    char,
> {
    match shared_from(profiles, d, provider, 0) {
        Some(i) => profiles[i].pool@,
        None => provider.word@ + "-included-"@ + fitting(d.account@, 12),
    }
}

/// Whether a profile is the one that is proposed anew: nothing is confirmed of it.
pub open spec fn is_new_profile(
    p: ResourceProfile,
    profiles: Seq<ResourceProfile>,
    d: Discovery,
    provider: Provider,
    model: Seq<char>,
    effort: Seq<char>,
    tier: ResourceTier,
    revision: u64,
) -> bool {
    &&& p.enabled
    &&& p.provider@ == (if provider.agent == Agent::Codex {
        "openai"@
    } else {
        "anthropic"@
    })
    &&& p.harness@ == provider.word@
    &&& p.funding_source@ == d.funding@
    &&& p.model@ == model
    &&& p.effort matches Some(e)
    &&& e@ == effort
    &&& p.service_mode@ == "standard"@
    &&& p.runtime@ == "local"@
    &&& p.pool@ == new_pool(profiles, d, provider)
    &&& p.provider_buckets@.len() == 0
    &&& p.tier == tier
    &&& !p.included
    &&& !p.no_overage_verified
    &&& p.authorization_revision == revision
    &&& p.claude_subscription == d.claude
    &&& p.stale_evidence is None
}

/// An existing profile with a new authorization revision and the evidence that was found; everything
/// else stays.
pub open spec fn renewed(p: ResourceProfile, d: Discovery, revision: u64) -> ResourceProfile {
    ResourceProfile { authorization_revision: revision, claude_subscription: d.claude, ..p }
}

/// Whether a proposal revalidates the existing profile, or adds one.
pub open spec fn prepared(
    p: Proposal,
    config: ResourceConfig,
    original: Option<Vec<u8>>,
    d: Discovery,
    provider: Provider,
    existing: Option<usize>,
    model: Seq<char>,
    effort: Seq<char>,
    tier: ResourceTier,
    retained: u64,
) -> bool {
    let revision = (later(highest(config.profiles@), retained) + 1) as u64;
    let before = config.profiles@;
    &&& p.discovery == d
    &&& p.original == original
    &&& p.agent == provider.agent
    &&& p.config.version == config.version
    &&& p.config.allocation_enabled == config.allocation_enabled
    &&& match existing {
        Some(i) => {
            &&& p.index == i
            &&& p.config.profiles@ == before.update(i as int, p.config.profiles@[i as int])
            &&& same_profile(
                p.config.profiles@[i as int],
                renewed(before[i as int], d, revision),
            )
        },
        None => {
            &&& p.index == before.len()
            &&& p.config.profiles@ == before.push(p.config.profiles@[before.len() as int])
            &&& is_new_profile(
                p.config.profiles@[before.len() as int],
                before,
                d,
                provider,
                model,
                effort,
                tier,
                revision,
            )
        },
    }
}

/// Whether a configuration is the one that a confirmed proposal leads to.
pub open spec fn confirms(c: ResourceConfig, p: Proposal, stale: Option<String>) -> bool {
    let new = confirmed(p.config.profiles@[p.index as int], stale);
    &&& ineligibility(new) is None
    &&& c.allocation_enabled
    &&& c.version == p.config.version
    &&& c.profiles@ == p.config.profiles@.update(p.index as int, c.profiles@[p.index as int])
    &&& same_profile(c.profiles@[p.index as int], new)
}

fn copy_evidence(e: &Option<SubscriptionEvidence>) -> (r: Option<SubscriptionEvidence>)
    ensures
        r == *e,
{
    match e {
        Some(e) => Some(e.copied()),
        None => None,
    }
}

impl Proposal {
    /// Proposes to revalidate an existing profile, or to add one. `admission` says whether shared
    /// admission is on, `retained` is the highest revision that was ever used. A new profile without a
    /// pool to share takes its name from the first twelve bytes of the account.
    pub fn prepare(
        config: ResourceConfig,
        admission: bool,
        original: Option<Vec<u8>>,
        discovery: Discovery,
        provider: &Provider,
        existing: Option<usize>,
        model: String,
        effort: String,
        tier: ResourceTier,
        retained: u64,
    ) -> (r: Result<Self, String>)
        requires
            admission && existing is None && shared_from(config.profiles@, discovery, *provider, 0)
                is None ==> byte_len(discovery.account@) >= 12 && cuts_cleanly(
                discovery.account@,
                12,
            ),
        ensures
            match proposal_refusal(config, admission, discovery, *provider, existing, retained) {
                Some(reason) => r matches Err(e) && e@ == reason,
                None => r matches Ok(p) && prepared(
                    p,
                    config,
                    original,
                    discovery,
                    *provider,
                    existing,
                    model@,
                    effort@,
                    tier,
                    retained,
                ),
            },
    {
        if !admission {
            return Err(
                "shared admission is disabled; change that advanced policy explicitly before setup".to_owned(),
            );
        }
        let best = find_highest(&config.profiles);
        let base: u64 = if best > retained {
            best
        } else {
            retained
        };
        if base == u64::MAX {
            return Err("authorization revision exhausted".to_owned());
        }
        let revision: u64 = base + 1;
        let mut config = config;
        let ghost before = config.profiles@;
        match existing {
            Some(index) => {
                if index >= config.profiles.len() {
                    return Err("resource selection changed".to_owned());
                }
                let mut profile = config.profiles[index].copied();
                if !same(profile.harness.as_str(), provider.word.as_str()) || !same(
                    profile.runtime.as_str(),
                    "local",
                ) || !same(profile.service_mode.as_str(), "standard") {
                    return Err(
                        "guided revalidation supports the selected provider in local standard mode only".to_owned(),
                    );
                }
                let moved = match &profile.claude_subscription {
                    Some(old) => !same(old.account_sha256.as_str(), discovery.account.as_str()),
                    None => false,
                };
                if moved {
                    return Err(
                        "account changed: add a new resource explicitly; existing account scope was preserved".to_owned(),
                    );
                }
                if !same(profile.funding_source.as_str(), discovery.funding.as_str())
                    && provider.agent != Agent::Claude {
                    return Err(
                        "subscription plan changed: add a new resource explicitly".to_owned(),
                    );
                }
                if !profile.enabled {
                    return Err(
                        "disabled resources stay disabled; enable them explicitly in advanced configuration".to_owned(),
                    );
                }
                profile.authorization_revision = revision;
                profile.claude_subscription = copy_evidence(&discovery.claude);
                config.profiles.set(index, profile);
                assert(config.profiles@ =~= before.update(index as int, config.profiles@[index as int]));
                Ok(Proposal { config, index, original, discovery, agent: provider.agent })
            },
            None => {
                let shared = find_shared(&config.profiles, &discovery, provider);
                let pool = match shared {
                    Some(i) => {
                        if config.profiles[i].provider_buckets.len() > 0 {
                            return Err(
                                "existing account uses explicit bucket mappings; revalidate its existing profile instead".to_owned(),
                            );
                        }
                        config.profiles[i].pool.clone()
                    },
                    None => {
                        let mut name = provider.word.clone();
                        name.push_str("-included-");
                        name.push_str(fit(discovery.account.as_str(), 12).as_str());
                        name
                    },
                };
                let index = config.profiles.len();
                let profile = ResourceProfile {
                    enabled: true,
                    provider: if provider.agent == Agent::Codex {
                        "openai".to_owned()
                    } else {
                        "anthropic".to_owned()
                    },
                    funding_source: discovery.funding.clone(),
                    harness: provider.word.clone(),
                    model,
                    effort: Some(effort),
                    service_mode: "standard".to_owned(),
                    runtime: "local".to_owned(),
                    pool,
                    provider_buckets: Vec::new(),
                    tier,
                    included: false,
                    no_overage_verified: false,
                    authorization_revision: revision,
                    claude_subscription: copy_evidence(&discovery.claude),
                    stale_evidence: None,
                };
                config.profiles.push(profile);
                assert(config.profiles@ =~= before.push(config.profiles@[index as int]));
                Ok(Proposal { config, index, original, discovery, agent: provider.agent })
            },
        }
    }

    /// What is asked to be confirmed.
    pub fn summary(&self) -> (r: String)
        requires
            self.index < self.config.profiles@.len(),
            cuts_cleanly(self.discovery.account@, 12),
        ensures
            r@ == proposal_text(
                self.config.profiles@[self.index as int],
                self.discovery,
                self.agent,
            ),
    {
        let p = &self.config.profiles[self.index];
        let claude = self.agent == Agent::Claude;
        let mut text = self.discovery.summary();
        text.push_str("\n\n");
        text.push_str(p.harness.as_str());
        text.push_str(" / ");
        text.push_str(p.model.as_str());
        text.push_str(" / ");
        text.push_str(
            match &p.effort {
                Some(effort) => effort.as_str(),
                None => "default",
            },
        );
        text.push_str(" · ");
        text.push_str(
            match p.tier {
                ResourceTier::Light => "Light",
                ResourceTier::Standard => "Standard",
                ResourceTier::Strong => "Strong",
            },
        );
        text.push_str("\nLocal runtime · standard service · included only\n");
        if claude {
            text.push_str("Funding assertion expires in 24 hours.");
        } else {
            text.push_str("Launch checks current account and retained funding evidence.");
        }
        text.push_str(
            "\n\nConfirm: this exact model and effort are included in my subscription.\nI verified that paid overage / usage credits are disabled.",
        );
        if claude {
            text.push_str(
                "\nI verified controlled print mode is included and this account is unmanaged.",
            );
        } else {
            text.push_str("");
        }
        text.push_str(
            "\n\nType confirm to authorize and save, or cancel to keep configuration.",
        );
        text
    }

    /// The configuration that is written once the proposal was shown and explicitly confirmed. `stale`
    /// is what the check of the evidence says of it then. Nothing else renews any trust.
    pub fn confirm(self, stale: Option<String>) -> (r: Result<ResourceConfig, String>)
        requires
            self.index < self.config.profiles@.len(),
        ensures
            match ineligibility(confirmed(self.config.profiles@[self.index as int], stale)) {
                Some(reason) => r matches Err(e) && e@ == reason,
                None => r matches Ok(config) && confirms(config, self, stale),
            },
    {
        let Proposal { config, index, original: _, discovery: _, agent: _ } = self;
        let mut config = config;
        let mut p = config.profiles[index].copied();
        p.included = true;
        p.no_overage_verified = true;
        p.stale_evidence = stale;
        p.claude_subscription = match p.claude_subscription {
            Some(e) => Some(
                SubscriptionEvidence {
                    contract_version: e.contract_version,
                    cli_version: e.cli_version,
                    executable_sha256: e.executable_sha256,
                    account_sha256: e.account_sha256,
                    checked_at: e.checked_at,
                    valid_until: e.valid_until,
                    print_mode_included: true,
                    usage_credits_disabled: true,
                    unmanaged_account: true,
                },
            ),
            None => None,
        };
        assert(same_profile(p, confirmed(self.config.profiles@[index as int], stale)));
        match p.eligibility() {
            Ok(_) => {},
            Err(e) => {
                return Err(e);
            },
        }
        config.profiles.set(index, p);
        config.allocation_enabled = true;
        assert(config.profiles@ =~= self.config.profiles@.update(
            index as int,
            config.profiles@[index as int],
        ));
        Ok(config)
    }
}

/// What is asked to be confirmed.
pub open spec fn proposal_text(p: ResourceProfile, d: Discovery, agent: Agent) -> Seq<char> {
    let claude = agent == Agent::Claude;
    discovery_text(d) + "\n\n"@ + p.harness@ + " / "@ + p.model@ + " / "@ + (match p.effort {
        Some(effort) => effort@,
        None => "default"@,
    }) + " · "@ + (match p.tier {
        ResourceTier::Light => "Light"@,
        ResourceTier::Standard => "Standard"@,
        ResourceTier::Strong => "Strong"@,
    }) + "\nLocal runtime · standard service · included only\n"@ + (if claude {
        "Funding assertion expires in 24 hours."@
    } else {
        "Launch checks current account and retained funding evidence."@
    })
        + "\n\nConfirm: this exact model and effort are included in my subscription.\nI verified that paid overage / usage credits are disabled."@
        + (if claude {
        "\nI verified controlled print mode is included and this account is unmanaged."@
    } else {
        ""@
    }) + "\n\nType confirm to authorize and save, or cancel to keep configuration."@
}

/// A profile once it is confirmed.
pub open spec fn confirmed(p: ResourceProfile, stale: Option<String>) -> ResourceProfile {
    ResourceProfile {
        included: true,
        no_overage_verified: true,
        stale_evidence: stale,
        claude_subscription: match p.claude_subscription {
            Some(e) => Some(
                SubscriptionEvidence {
                    print_mode_included: true,
                    usage_credits_disabled: true,
                    unmanaged_account: true,
                    ..e
                },
            ),
            None => None,
        },
        ..p
    }
}

/// A configuration file as it is found.
#[derive(Debug, Clone, PartialEq, Eq)]
pub enum ConfigFile {
    Missing,
    Regular(Vec<u8>),
    /// A symbolic link, a directory or anything else that is no regular file.
    Special,
}

/// What a configuration file holds; only a regular file is ever read.
pub fn read_config(file: ConfigFile) -> (r: Result<Option<Vec<u8>>, String>)
    ensures
        match file {
            ConfigFile::Missing => r == Ok::<Option<Vec<u8>>, String>(None),
            ConfigFile::Regular(bytes) => r == Ok::<Option<Vec<u8>>, String>(Some(bytes)),
            ConfigFile::Special => r matches Err(e) && e@ == "configuration must be a regular file"@,
        },
{
    match file {
        ConfigFile::Missing => Ok(None),
        ConfigFile::Regular(bytes) => Ok(Some(bytes)),
        ConfigFile::Special => Err("configuration must be a regular file".to_owned()),
    }
}

/// The configuration of a project; none where no file was discovered.
pub fn project_config_bytes(discovered: Option<ConfigFile>) -> (r: Result<Option<Vec<u8>>, String>)
    ensures
        match discovered {
            Some(ConfigFile::Regular(bytes)) => r == Ok::<Option<Vec<u8>>, String>(Some(bytes)),
            Some(ConfigFile::Special) => r matches Err(e) && e@
                == "configuration must be a regular file"@,
            _ => r == Ok::<Option<Vec<u8>>, String>(None),
        },
{
    match discovered {
        Some(file) => read_config(file),
        None => Ok(None),
    }
}

/// What a configuration holds, as bytes.
pub open spec fn held(bytes: Option<Vec<u8>>) -> Option<Seq<u8>> {
    match bytes {
        Some(b) => Some(b@),
        None => None,
    }
}

/// What stands where a configuration is kept, as bytes.
pub open spec fn standing(file: ConfigFile) -> Option<Seq<u8>> {
    match file {
        ConfigFile::Regular(bytes) => Some(bytes@),
        _ => None,
    }
}

/// Why a configuration may not be replaced, if it may not: another writer holds the lock, or it is no longer
/// what the proposal was made from.
pub open spec fn replace_refusal(
    locked: bool,
    current: ConfigFile,
    expected: Option<Vec<u8>>,
) -> Option<Seq<char>> {
    if !locked {
        Some("another setup write is in progress; re-open Resources"@)
    } else if current is Special {
        Some("configuration must be a regular file"@)
    } else if standing(current) != held(expected) {
        Some("configuration changed while awaiting confirmation; reopen setup to compare again"@)
    } else {
        None
    }
}

/// Whether a configuration may be replaced: no other writer holds the lock, and it still is what the
/// proposal was made from.
pub fn may_replace(locked: bool, current: ConfigFile, expected: &Option<Vec<u8>>) -> (r: Result<
    (),
    String,
>)
    ensures
        match replace_refusal(locked, current, *expected) {
            Some(reason) => r matches Err(e) && e@ == reason,
            None => r is Ok,
        },
{
    if !locked {
        return Err("another setup write is in progress; re-open Resources".to_owned());
    }
    let found = read_config(current)?;
    let unchanged = match (&found, expected) {
        (Some(a), Some(b)) => same_bytes(a, b),
        (None, None) => true,
        _ => false,
    };
    if unchanged {
        Ok(())
    } else {
        Err(
            "configuration changed while awaiting confirmation; reopen setup to compare again".to_owned(),
        )
    }
}

fn copy_file(file: &ConfigFile) -> (r: ConfigFile)
    ensures
        standing(r) == standing(*file),
        r is Special == file is Special,
{
    match file {
        ConfigFile::Missing => ConfigFile::Missing,
        ConfigFile::Regular(bytes) => ConfigFile::Regular(copy_bytes(bytes)),
        ConfigFile::Special => ConfigFile::Special,
    }
}

/// Replaces a configuration whole or not at all: what stands there then, and why it was refused where it
/// was.
pub fn atomic_config(
    locked: bool,
    current: ConfigFile,
    expected: &Option<Vec<u8>>,
    bytes: Vec<u8>,
) -> (r: (ConfigFile, Result<(), String>))
    ensures
        match replace_refusal(locked, current, *expected) {
            Some(reason) => r.0 == current && r.1 is Err && r.1->Err_0@ == reason,
            None => r.0 == ConfigFile::Regular(bytes) && r.1 is Ok,
        },
{
    match may_replace(locked, copy_file(&current), expected) {
        Ok(()) => (ConfigFile::Regular(bytes), Ok(())),
        Err(e) => (current, Err(e)),
    }
}

/// The checks that can be chosen for a project, by which files it has.
pub open spec fn choices(script: Option<Seq<char>>, cargo: bool, make: bool) -> Seq<Seq<char>> {
    (match script {
        Some(name) => seq!["sh ./"@ + name],
        None => Seq::empty(),
    }) + (if cargo {
        seq!["cargo test --locked"@]
    } else {
        Seq::empty()
    }) + (if make {
        seq!["make test"@]
    } else {
        Seq::empty()
    })
}

/// The checks that can be chosen for a project: `script` names its verification script where it has one,
/// `cargo` says whether it has a `Cargo.toml`, `make` a `Makefile`.
pub fn check_choices(script: Option<&str>, cargo: bool, make: bool) -> (r: Vec<String>)
    ensures
        texts(r@) == choices(optional_str(script), cargo, make),
{
    let mut out: Vec<String> = Vec::new();
    if let Some(name) = script {
        let mut text = "sh ./".to_owned();
        text.push_str(name);
        put(&mut out, text.as_str());
    }
    if cargo {
        put(&mut out, "cargo test --locked");
    }
    if make {
        put(&mut out, "make test");
    }
    assert(texts(out@) =~= choices(optional_str(script), cargo, make));
    out
}

/// What a configuration holds under a text; a null where it holds nothing there.
pub open spec fn section(whole: Seq<char>, key: Seq<char>) -> Seq<char> {
    match under(entries_of(whole), key) {
        Some(held) => held,
        None => Seq::empty(),
    }
}

/// Whether a check can be put into a configuration: the whole of it and what it holds under `checks` are
/// mappings or nothing at all.
pub open spec fn takes_check(whole: Seq<char>) -> bool {
    takes_entries(whole) && takes_entries(section(whole, "checks"@))
}

/// The checks of a configuration with this one as the check that verifies.
pub open spec fn checks_with(whole: Seq<char>, command: Seq<char>) -> Seq<char> {
    yaml_assigned(section(whole, "checks"@), "verify"@, yaml_list(seq![command]))
}

/// A configuration with this check.
pub open spec fn checked(whole: Seq<char>, command: Seq<char>) -> Seq<char> {
    yaml_assigned(whole, "checks"@, checks_with(whole, command))
}

/// Whether a check is put into a configuration and nothing else of it changes: among the checks `verify`
/// is the list of this one, among the settings `checks` is the result, and all other entries of both stay
/// what and where they were.
pub open spec fn keeps_the_rest(whole: Seq<char>, command: Seq<char>) -> bool {
    &&& entries_of(checks_with(whole, command)) == assigned(
        entries_of(section(whole, "checks"@)),
        "verify"@,
        yaml_list(seq![command]),
    )
    &&& entries_of(checked(whole, command)) == assigned(
        entries_of(whole),
        "checks"@,
        checks_with(whole, command),
    )
}

/// Puts a check into the configuration of a project that was read.
pub fn set_check(whole: serde_yaml::Value, command: &str) -> (r: Result<serde_yaml::Value, String>)
    ensures
        if takes_check(node(whole)) {
            r matches Ok(v) && node(v) == checked(node(whole), command@) && keeps_the_rest(
                node(whole),
                command@,
            )
        } else {
            r matches Err(e) && e@ == "project configuration cannot be edited"@
        },
{
    let mut whole = whole;
    let ghost before = node(whole);
    if !can_take(&whole) {
        return Err("project configuration cannot be edited".to_owned());
    }
    let mut checks = match get(&whole, "checks") {
        Some(found) => found,
        None => null(),
    };
    assert(node(checks) =~= section(before, "checks"@));
    if !can_take(&checks) {
        return Err("project configuration cannot be edited".to_owned());
    }
    let mut commands: Vec<String> = Vec::new();
    put(&mut commands, command);
    assert(texts(commands@) =~= seq![command@]);
    assign(&mut checks, "verify", list(commands));
    assign(&mut whole, "checks", checks);
    Ok(whole)
}

/// What a configuration file holds; an absent one is empty.
pub open spec fn configured(file: Option<Seq<u8>>) -> Result<Seq<char>, Seq<char>> {
    match file {
        Some(bytes) => yaml_read(bytes),
        None => Ok(Seq::empty()),
    }
}

/// Whether a result is the text of a configuration file with this check, or why there is none: the file
/// cannot be read, takes no check, or cannot be written with it.
pub open spec fn saves(r: Result<String, String>, command: Seq<char>, file: Option<Seq<u8>>) -> bool {
    match configured(file) {
        Err(message) => r matches Err(e) && e@ == message,
        Ok(whole) => if !takes_check(whole) {
            r matches Err(e) && e@ == "project configuration cannot be edited"@
        } else {
            &&& keeps_the_rest(whole, command)
            &&& match yaml_written(checked(whole, command)) {
                Ok(text) => r matches Ok(t) && t@ == text,
                Err(message) => r matches Err(e) && e@ == message,
            }
        },
    }
}

/// The configuration of a project with this check, everything else of it kept; or why it cannot hold one.
pub fn with_check(command: &str, expected: &Option<Vec<u8>>) -> (r: Result<String, String>)
    ensures
        saves(r, command@, held(*expected)),
{
    let whole = match expected {
        Some(bytes) => match read(bytes) {
            Ok(v) => v,
            Err(e) => return Err(e),
        },
        None => null(),
    };
    assert(expected is None ==> node(whole) =~= Seq::empty());
    match set_check(whole, command) {
        Ok(v) => write_text(&v),
        Err(e) => Err(e),
    }
}

/// The configuration of a project with a chosen check, everything else of it kept. Only a check that can
/// still be chosen is saved.
pub fn save_checks(command: &str, available: &Vec<String>, expected: &Option<Vec<u8>>) -> (r: Result<
    String,
    String,
>)
    ensures
        if !holds(available@, command@) {
            r matches Err(e) && e@ == "check choice is no longer available"@
        } else {
            saves(r, command@, held(*expected))
        },
{
    if holds_text(available, command) {
        with_check(command, expected)
    } else {
        Err("check choice is no longer available".to_owned())
    }
}

/// Every other setting of a project survives a saved check: what stands under any other text, and among
/// the checks all but the one that verifies.
pub proof fn other_settings_survive(whole: Seq<char>, command: Seq<char>, key: Seq<char>)
    requires
        keeps_the_rest(whole, command),
    ensures
        key != "checks"@ ==> under(entries_of(checked(whole, command)), key) == under(
            entries_of(whole),
            key,
        ),
        section(checked(whole, command), "checks"@) == checks_with(whole, command),
        key != "verify"@ ==> under(entries_of(checks_with(whole, command)), key) == under(
            entries_of(section(whole, "checks"@)),
            key,
        ),
        under(entries_of(checks_with(whole, command)), "verify"@) == Some(yaml_list(seq![command])),
{
    other_entries_stay(entries_of(whole), "checks"@, checks_with(whole, command));
    other_entries_stay(
        entries_of(section(whole, "checks"@)),
        "verify"@,
        yaml_list(seq![command]),
    );
}

/// Preparing a proposal authorizes nothing: what is added cannot run before it is confirmed.
pub proof fn proposals_authorize_nothing(
    p: ResourceProfile,
    profiles: Seq<ResourceProfile>,
    d: Discovery,
    provider: Provider,
    model: Seq<char>,
    effort: Seq<char>,
    tier: ResourceTier,
    revision: u64,
)
    requires
        is_new_profile(p, profiles, d, provider, model, effort, tier, revision),
    ensures
        ineligibility(p) == Some("profile is not confirmed as included"@),
{
}

/// Revalidation keeps the model, the effort, the tier, the pool and everything else that was configured.
pub proof fn revalidation_keeps_the_configuration(p: ResourceProfile, d: Discovery, revision: u64)
    ensures
        ({
            let new = renewed(p, d, revision);
            &&& new.model == p.model && new.effort == p.effort && new.tier == p.tier
            &&& new.pool == p.pool && new.provider_buckets == p.provider_buckets
            &&& new.provider == p.provider && new.harness == p.harness
            &&& new.funding_source == p.funding_source
            &&& new.enabled == p.enabled && new.included == p.included
            &&& new.no_overage_verified == p.no_overage_verified
        }),
{
}

/// A disabled profile is never proposed, however it is asked for.
pub proof fn disabled_profiles_stay_disabled(
    config: ResourceConfig,
    admission: bool,
    d: Discovery,
    provider: Provider,
    i: usize,
    retained: u64,
)
    requires
        i < config.profiles@.len(),
        !config.profiles@[i as int].enabled,
    ensures
        proposal_refusal(config, admission, d, provider, Some(i), retained) is Some,
{
}

/// An authorization revision is never used twice: the next one is above every one that is configured or
/// was ever retained.
pub proof fn revisions_are_never_reused(profiles: Seq<ResourceProfile>, retained: u64, i: int)
    requires
        0 <= i < profiles.len(),
    ensures
        later(highest(profiles), retained) + 1 > profiles[i].authorization_revision,
        later(highest(profiles), retained) + 1 > retained,
    decreases profiles.len(),
{
    if i < profiles.len() - 1 {
        revisions_are_never_reused(profiles.drop_last(), retained, i);
    }
}

/// A confirmation counts only while the evidence holds: where the evidence is stale, nothing is written.
pub proof fn stale_evidence_is_never_confirmed(p: ResourceProfile, stale: String)
    ensures
        ineligibility(confirmed(p, Some(stale))) is Some,
{
}

proof fn highest_is_above(profiles: Seq<ResourceProfile>, i: int)
    requires
        0 <= i < profiles.len(),
    ensures
        highest(profiles) >= profiles[i].authorization_revision,
    decreases profiles.len(),
{
    if i < profiles.len() - 1 {
        highest_is_above(profiles.drop_last(), i);
    }
}

/// Of two proposals that were made from the same configuration only the first is written. `parse` is how a
/// configuration is read: it gives the first proposal's configuration for what stood there, and the
/// confirmed one for what was written. What the first wrote stays, and its resource is authorized.
pub proof fn a_second_proposal_is_refused(
    config: ResourceConfig,
    d: Discovery,
    provider: Provider,
    existing: Option<usize>,
    model: Seq<char>,
    effort: Seq<char>,
    tier: ResourceTier,
    retained: u64,
    first: Proposal,
    stale: Option<String>,
    confirmed_config: ResourceConfig,
    written: Vec<u8>,
    second: Proposal,
    locked: bool,
    parse: spec_fn(Option<Seq<u8>>) -> ResourceConfig,
)
    requires
        proposal_refusal(config, true, d, provider, existing, retained) is None,
        prepared(
            first,
            config,
            first.original,
            d,
            provider,
            existing,
            model,
            effort,
            tier,
            retained,
        ),
        confirms(confirmed_config, first, stale),
        parse(held(first.original)) == config,
        parse(Some(written@)) == confirmed_config,
        held(second.original) == held(first.original),
    ensures
        replace_refusal(locked, ConfigFile::Regular(written), second.original) is Some,
        confirmed_config.allocation_enabled,
        confirmed_config.profiles@[first.index as int].included,
        confirmed_config.profiles@[first.index as int].no_overage_verified,
        ineligibility(confirmed_config.profiles@[first.index as int]) is None,
{
    let revision = (later(highest(config.profiles@), retained) + 1) as u64;
    let i = first.index as int;
    assert(0 <= i < first.config.profiles@.len());
    assert(first.config.profiles@[i].authorization_revision == revision);
    assert(confirmed_config.profiles@[i].authorization_revision == revision);
    highest_is_above(confirmed_config.profiles@, i);
    if held(first.original) == Some(written@) {
        assert(confirmed_config == config);
    }
}

} // verus!
