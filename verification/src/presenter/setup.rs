//! The menus of setup, and what a choice in them leads to. Nothing is authorized but by the one row that
//! says so.

use vstd::prelude::*;

use crate::presenter::{clip, clipped};
use crate::setup::{are_known, known_providers, Provider};

use crate::text::{
    blank, copy_optional, decimal, decimal_of, is_blank, optional_view, put, same, texts, trim,
    trimmed,
};
use crate::router::{ResourceProfile, ineligibility};

verus! {

/// A row of a menu; a row with a reason cannot be chosen.
#[derive(Debug, Clone, PartialEq, Eq)]
pub struct Choice {
    pub label: String,
    pub disabled: Option<String>,
}

impl Choice {
    /// A row that can be chosen.
    pub fn new(label: &str) -> (r: Self)
        ensures
            r.label@ == label@,
            r.disabled is None,
    {
        Choice { label: label.to_owned(), disabled: None }
    }

    /// A row that cannot be chosen, and why.
    pub fn disabled(label: &str, reason: &str) -> (r: Self)
        ensures
            r.label@ == label@,
            r.disabled matches Some(text) && text@ == reason@,
    {
        Choice { label: label.to_owned(), disabled: Some(reason.to_owned()) }
    }
}

/// A row as it reads.
pub open spec fn row(c: Choice) -> (Seq<char>, Option<Seq<char>>) {
    (c.label@, optional_view(c.disabled))
}

/// Rows as they read.
pub open spec fn menu(rows: Seq<Choice>) -> Seq<(Seq<char>, Option<Seq<char>>)> {
    rows.map_values(|c: Choice| row(c))
}

/// The providers that the menus offer: the hooked agent, under its word and name, and Codex.
pub fn offered_providers(word: &str, name: &str, codex: bool, claude: bool) -> (r: Vec<Provider>)
    ensures
        r@.len() == 2,
        are_known(r@.reverse(), word@, name@, codex, claude),
{
    let mut known = known_providers(word, name, codex, claude);
    let ghost all = known@;
    let first = known.remove(0);
    known.push(first);
    assert(known@.reverse() =~= all);
    known
}

/// The first row from `i` on whose number is typed and that can be chosen.
pub open spec fn numbered_from(typed: Seq<char>, rows: Seq<Choice>, i: int) -> Option<int>
    decreases rows.len() - i,
{
    if i < 0 || i >= rows.len() {
        None
    } else if rows[i].disabled is None && typed == decimal((i + 1) as nat) {
        Some(i)
    } else {
        numbered_from(typed, rows, i + 1)
    }
}

/// The row that typed text chooses: the one that is marked where nothing is typed, and else the one with
/// that number, where it can be chosen.
pub fn typed_row(typed: &str, rows: &Vec<Choice>, marked: usize) -> (r: Option<usize>)
    requires
        rows@.len() <= u64::MAX,
    ensures
        if is_blank(typed@) {
            r == Some(marked)
        } else {
            match numbered_from(trim(typed@), rows@, 0) {
                Some(i) => r == Some(i as usize) && i < rows@.len(),
                None => r is None,
            }
        },
{
    if blank(typed) {
        return Some(marked);
    }
    let text = trimmed(typed);
    let mut i: usize = 0;
    while i < rows.len()
        invariant
            i <= rows.len() <= u64::MAX,
            !is_blank(typed@),
            text@ == trim(typed@),
            numbered_from(trim(typed@), rows@, 0) == numbered_from(trim(typed@), rows@, i as int),
        decreases rows.len() - i,
    {
        if rows[i].disabled.is_none() && same(text.as_str(), decimal_of(i as u64 + 1).as_str()) {
            return Some(i);
        }
        i += 1;
    }
    None
}

fn put_row(rows: &mut Vec<Choice>, choice: Choice)
    ensures
        menu(final(rows)@) == menu(old(rows)@).push(row(choice)),
{
    rows.push(choice);
    assert(menu(rows@) =~= menu(old(rows)@).push(row(choice)));
}

/// How long something still lasts: in whole hours, or in minutes, at least one.
pub open spec fn remaining_words(until: i64, now: i64) -> Seq<char> {
    let left = until - now;
    if left >= 3_600_000_000 {
        decimal((left / 3_600_000_000) as nat) + " h"@
    } else if left >= 60_000_000 {
        decimal((left / 60_000_000) as nat) + " min"@
    } else {
        decimal(1) + " min"@
    }
}

/// How long something still lasts at `now`.
pub fn remaining(until: i64, now: i64) -> (r: String)
    ensures
        r@ == remaining_words(until, now),
{
    let left: i128 = until as i128 - now as i128;
    if left >= 3_600_000_000 {
        let hours: u64 = (left / 3_600_000_000) as u64;
        let mut text = decimal_of(hours);
        text.push_str(" h");
        text
    } else {
        let minutes: u64 = if left >= 60_000_000 {
            (left / 60_000_000) as u64
        } else {
            1
        };
        let mut text = decimal_of(minutes);
        text.push_str(" min");
        text
    }
}

/// The name of a profile in the menu.
pub open spec fn profile_name(p: ResourceProfile) -> Seq<char> {
    "Revalidate "@ + p.harness@ + " · "@ + p.model@ + " · "@ + (match p.effort {
        Some(effort) => effort@,
        None => "default effort"@,
    })
}

/// The row of a profile.
pub open spec fn profile_row(p: ResourceProfile, now: i64) -> (Seq<char>, Option<Seq<char>>) {
    if !p.enabled {
        (profile_name(p), Some("disabled in resources.yml"@))
    } else {
        (
            profile_name(p) + " · "@ + (match ineligibility(p) {
                None => match p.claude_subscription {
                    Some(e) => "ready, expires in "@ + remaining_words(e.valid_until, now),
                    None => "ready"@,
                },
                Some(reason) => "needs revalidation: "@ + reason,
            }),
            None,
        )
    }
}

/// A profile as a row: choosing it revalidates. A disabled profile stays disabled until it is enabled in
/// `resources.yml`.
pub fn profile_choice(p: &ResourceProfile, now: i64) -> (r: Choice)
    ensures
        row(r) == profile_row(*p, now),
{
    let mut text = "Revalidate ".to_owned();
    text.push_str(p.harness.as_str());
    text.push_str(" · ");
    text.push_str(p.model.as_str());
    text.push_str(" · ");
    text.push_str(
        match &p.effort {
            Some(effort) => effort.as_str(),
            None => "default effort",
        },
    );
    assert(text@ =~= profile_name(*p));
    if !p.enabled {
        return Choice::disabled(text.as_str(), "disabled in resources.yml");
    }
    let status = match p.eligibility() {
        Ok(_) => match &p.claude_subscription {
            Some(e) => {
                let mut s = "ready, expires in ".to_owned();
                s.push_str(remaining(e.valid_until, now).as_str());
                s
            },
            None => "ready".to_owned(),
        },
        Err(e) => {
            let mut s = "needs revalidation: ".to_owned();
            s.push_str(e.as_str());
            s
        },
    };
    text.push_str(" · ");
    text.push_str(status.as_str());
    Choice::new(text.as_str())
}

/// The row that adds a resource of a provider.
pub open spec fn add_row(p: Provider) -> (Seq<char>, Option<Seq<char>>) {
    (
        "Add "@ + p.name@,
        if p.installed {
            None
        } else {
            Some("not found on PATH"@)
        },
    )
}

/// The rows of the accounts.
pub open spec fn accounts_rows(
    providers: Seq<Provider>,
    profiles: Seq<ResourceProfile>,
    now: i64,
) -> Seq<(Seq<char>, Option<Seq<char>>)> {
    providers.map_values(|p: Provider| add_row(p)) + profiles.map_values(
        |p: ResourceProfile| profile_row(p, now),
    ) + seq![
        ("Provider login…"@, None::<Seq<char>>),
        ("Runtime integrations…"@, None),
        ("Back"@, None),
    ]
}

fn add_choice(p: &Provider) -> (r: Choice)
    ensures
        row(r) == add_row(*p),
{
    let mut text = "Add ".to_owned();
    text.push_str(p.name.as_str());
    if p.installed {
        Choice::new(text.as_str())
    } else {
        Choice::disabled(text.as_str(), "not found on PATH")
    }
}

/// The rows of the accounts: adding a resource of each provider, every configured profile, and what else
/// there is.
pub fn accounts_menu(providers: &Vec<Provider>, profiles: &Vec<ResourceProfile>, now: i64) -> (r: Vec<
    Choice,
>)
    ensures
        menu(r@) == accounts_rows(providers@, profiles@, now),
{
    let mut rows: Vec<Choice> = Vec::new();
    let ghost head = providers@.map_values(|p: Provider| add_row(p));
    let mut k: usize = 0;
    assert(menu(rows@) =~= head.take(0));
    while k < providers.len()
        invariant
            k <= providers.len(),
            head == providers@.map_values(|p: Provider| add_row(p)),
            menu(rows@) == head.take(k as int),
        decreases providers.len() - k,
    {
        put_row(&mut rows, add_choice(&providers[k]));
        assert(head.take(k as int + 1) =~= head.take(k as int).push(head[k as int]));
        k += 1;
    }
    assert(head.take(providers@.len() as int) =~= head);
    let ghost middle = profiles@.map_values(|p: ResourceProfile| profile_row(p, now));
    let mut i: usize = 0;
    assert(head + middle.take(0) =~= head);
    while i < profiles.len()
        invariant
            i <= profiles.len(),
            middle == profiles@.map_values(|p: ResourceProfile| profile_row(p, now)),
            menu(rows@) == head + middle.take(i as int),
        decreases profiles.len() - i,
    {
        put_row(&mut rows, profile_choice(&profiles[i], now));
        assert(middle.take(i as int + 1) =~= middle.take(i as int).push(middle[i as int]));
        i += 1;
        assert(menu(rows@) =~= head + middle.take(i as int));
    }
    assert(middle.take(profiles@.len() as int) =~= middle);
    put_row(&mut rows, Choice::new("Provider login…"));
    put_row(&mut rows, Choice::new("Runtime integrations…"));
    put_row(&mut rows, Choice::new("Back"));
    assert(menu(rows@) =~= accounts_rows(providers@, profiles@, now));
    rows
}

/// What a choice among the accounts leads to.
#[derive(Debug, Clone, Copy, PartialEq, Eq, Structural)]
pub enum AccountsStep {
    /// A resource of the provider at this position is added.
    Add(usize),
    /// The profile at this position is revalidated.
    Revalidate(usize),
    Login,
    Integrations,
    Leave,
}

/// What a choice among the accounts leads to.
pub fn accounts_step(choice: Option<usize>, providers: usize, profiles: usize) -> (r: AccountsStep)
    ensures
        r == (match choice {
            None => AccountsStep::Leave,
            Some(i) => if i < providers {
                AccountsStep::Add(i)
            } else if i < providers + profiles {
                AccountsStep::Revalidate((i - providers) as usize)
            } else if i == providers + profiles {
                AccountsStep::Login
            } else if i == providers + profiles + 1 {
                AccountsStep::Integrations
            } else {
                AccountsStep::Leave
            },
        }),
{
    match choice {
        None => AccountsStep::Leave,
        Some(i) => {
            if i < providers {
                return AccountsStep::Add(i);
            }
            let k = i - providers;
            if k < profiles {
                AccountsStep::Revalidate(k)
            } else if k == profiles {
                AccountsStep::Login
            } else if k - 1 == profiles {
                AccountsStep::Integrations
            } else {
                AccountsStep::Leave
            }
        },
    }
}

/// The positions below `n` of the providers that are installed.
pub open spec fn installed_below(providers: Seq<Provider>, n: int) -> Seq<usize>
    decreases n,
{
    if n <= 0 {
        Seq::empty()
    } else if providers[n - 1].installed {
        installed_below(providers, n - 1).push((n - 1) as usize)
    } else {
        installed_below(providers, n - 1)
    }
}

/// The positions of the providers that can be logged in to, in order.
pub fn login_providers(providers: &Vec<Provider>) -> (r: Vec<usize>)
    ensures
        r@ == installed_below(providers@, providers@.len() as int),
{
    let mut out: Vec<usize> = Vec::new();
    let mut i: usize = 0;
    while i < providers.len()
        invariant
            i <= providers.len(),
            out@ == installed_below(providers@, i as int),
        decreases providers.len() - i,
    {
        if providers[i].installed {
            out.push(i);
        }
        i += 1;
    }
    out
}

/// What a provider's login is started with.
pub fn login_arguments(provider: &str) -> (r: Vec<String>)
    ensures
        texts(r@) == (if provider@ == "codex"@ {
            seq!["login"@, "--device-auth"@]
        } else {
            seq!["auth"@, "login"@]
        }),
{
    let mut out: Vec<String> = Vec::new();
    if same(provider, "codex") {
        put(&mut out, "login");
        put(&mut out, "--device-auth");
        assert(texts(out@) =~= seq!["login"@, "--device-auth"@]);
    } else {
        put(&mut out, "auth");
        put(&mut out, "login");
        assert(texts(out@) =~= seq!["auth"@, "login"@]);
    }
    out
}

/// How a login is asked for.
pub fn login_prompt(provider: &str) -> (r: String)
    ensures
        r@ == "Open "@ + provider@
            + "'s supported login? This may open a browser and change its saved account.\nNo funding is authorized by login."@,
{
    let mut text = "Open ".to_owned();
    text.push_str(provider);
    text.push_str(
        "'s supported login? This may open a browser and change its saved account.\nNo funding is authorized by login.",
    );
    text
}

/// What is said when a resource was left as it was.
pub fn report(error: &str) -> (r: String)
    ensures
        r@ == "Resource unchanged: "@ + clipped(error@, 500)
            + "\nChoose Provider login for missing authentication, or revalidate after correcting provider settings."@,
{
    let mut text = "Resource unchanged: ".to_owned();
    text.push_str(clip(error, 500).as_str());
    text.push_str(
        "\nChoose Provider login for missing authentication, or revalidate after correcting provider settings.",
    );
    text
}

/// Whether a choice consents. The focus starts on the other row, so that Enter alone never does.
pub fn consents(choice: Option<usize>) -> (r: bool)
    ensures
        r == (choice == Some(0usize)),
{
    match choice {
        Some(i) => i == 0,
        None => false,
    }
}

/// A model that can be chosen, with the efforts it offers.
#[derive(Debug, Clone, PartialEq, Eq)]
pub struct ModelOption {
    pub id: String,
    pub efforts: Vec<String>,
    pub default_effort: Option<String>,
}

/// A model that is offered.
pub struct Offer {
    pub id: Seq<char>,
    pub efforts: Seq<Seq<char>>,
    pub default_effort: Option<Seq<char>>,
}

impl ModelOption {
    /// What the option offers.
    pub open spec fn offer(self) -> Offer {
        Offer {
            id: self.id@,
            efforts: texts(self.efforts@),
            default_effort: optional_view(self.default_effort),
        }
    }

    /// A copy that offers the same.
    pub fn copied(&self) -> (r: Self)
        ensures
            r.offer() == self.offer(),
    {
        ModelOption {
            id: self.id.clone(),
            efforts: copy_texts(&self.efforts),
            default_effort: copy_optional(&self.default_effort),
        }
    }
}

fn copy_texts(v: &Vec<String>) -> (r: Vec<String>)
    ensures
        texts(r@) == texts(v@),
{
    let mut out: Vec<String> = Vec::new();
    let mut i: usize = 0;
    assert(texts(out@) =~= texts(v@).take(0));
    while i < v.len()
        invariant
            i <= v.len(),
            texts(out@) == texts(v@).take(i as int),
        decreases v.len() - i,
    {
        put(&mut out, v[i].as_str());
        assert(texts(v@).take(i as int + 1) =~= texts(v@).take(i as int).push(v@[i as int]@));
        i += 1;
    }
    assert(texts(v@).take(v@.len() as int) =~= texts(v@));
    out
}

/// What options offer.
pub open spec fn offers(options: Seq<ModelOption>) -> Seq<Offer> {
    options.map_values(|o: ModelOption| o.offer())
}

/// Whether a model is among those offered.
pub open spec fn offered(all: Seq<Offer>, id: Seq<char>) -> bool {
    exists|i: int| 0 <= i < all.len() && (#[trigger] all[i]).id == id
}

/// The first offer of a model from `i` on.
pub open spec fn listed_from(all: Seq<Offer>, id: Seq<char>, i: int) -> Option<Offer>
    decreases all.len() - i,
{
    if i < 0 || i >= all.len() {
        None
    } else if all[i].id == id {
        Some(all[i])
    } else {
        listed_from(all, id, i + 1)
    }
}

/// How a configured model is offered: as it is listed, or else with the usual efforts.
pub open spec fn offer_of(p: ResourceProfile, listed: Seq<Offer>, fallback: Seq<Seq<char>>) -> Offer {
    match listed_from(listed, p.model@, 0) {
        Some(o) => o,
        None => Offer {
            id: p.model@,
            efforts: fallback,
            default_effort: optional_view(p.effort),
        },
    }
}

/// The models of the first `n` profiles of a provider, each once.
pub open spec fn configured_offers(
    profiles: Seq<ResourceProfile>,
    provider: Seq<char>,
    listed: Seq<Offer>,
    fallback: Seq<Seq<char>>,
    n: int,
) -> Seq<Offer>
    decreases n,
{
    if n <= 0 {
        Seq::empty()
    } else {
        let before = configured_offers(profiles, provider, listed, fallback, n - 1);
        let p = profiles[n - 1];
        if p.harness@ == provider && !offered(before, p.model@) {
            before.push(offer_of(p, listed, fallback))
        } else {
            before
        }
    }
}

/// Offers, and the first `n` listed ones that are not among them, each once.
pub open spec fn all_offers(before: Seq<Offer>, listed: Seq<Offer>, n: int) -> Seq<Offer>
    decreases n,
{
    if n <= 0 {
        before
    } else {
        let most = all_offers(before, listed, n - 1);
        if offered(most, listed[n - 1].id) {
            most
        } else {
            most.push(listed[n - 1])
        }
    }
}

fn is_offered(options: &Vec<ModelOption>, id: &str) -> (r: bool)
    ensures
        r == offered(offers(options@), id@),
{
    let mut i: usize = 0;
    while i < options.len()
        invariant
            i <= options.len(),
            forall|k: int| 0 <= k < i ==> (#[trigger] offers(options@)[k]).id != id@,
        decreases options.len() - i,
    {
        assert(offers(options@)[i as int].id == options@[i as int].id@);
        if same(options[i].id.as_str(), id) {
            return true;
        }
        i += 1;
    }
    false
}

fn put_offer(options: &mut Vec<ModelOption>, option: ModelOption)
    ensures
        offers(final(options)@) == offers(old(options)@).push(option.offer()),
{
    options.push(option);
    assert(offers(options@) =~= offers(old(options)@).push(option.offer()));
}

fn configured_option(p: &ResourceProfile, listed: &Vec<ModelOption>, fallback: &Vec<String>) -> (r:
    ModelOption)
    ensures
        r.offer() == offer_of(*p, offers(listed@), texts(fallback@)),
{
    let mut i: usize = 0;
    while i < listed.len()
        invariant
            i <= listed.len(),
            listed_from(offers(listed@), p.model@, 0) == listed_from(
                offers(listed@),
                p.model@,
                i as int,
            ),
        decreases listed.len() - i,
    {
        assert(offers(listed@)[i as int] == listed@[i as int].offer());
        if same(listed[i].id.as_str(), p.model.as_str()) {
            return listed[i].copied();
        }
        i += 1;
    }
    ModelOption {
        id: p.model.clone(),
        efforts: copy_texts(fallback),
        default_effort: copy_optional(&p.effort),
    }
}

/// The models that can be chosen: first those that are configured for the provider, then those that it
/// lists; each once.
pub fn model_options(
    profiles: &Vec<ResourceProfile>,
    provider: &str,
    listed: &Vec<ModelOption>,
    fallback: &Vec<String>,
) -> (r: Vec<ModelOption>)
    ensures
        offers(r@) == all_offers(
            configured_offers(
                profiles@,
                provider@,
                offers(listed@),
                texts(fallback@),
                profiles@.len() as int,
            ),
            offers(listed@),
            listed@.len() as int,
        ),
{
    let mut options: Vec<ModelOption> = Vec::new();
    let ghost all = offers(listed@);
    let ghost usual = texts(fallback@);
    let mut i: usize = 0;
    assert(offers(options@) =~= Seq::empty());
    while i < profiles.len()
        invariant
            i <= profiles.len(),
            all == offers(listed@),
            usual == texts(fallback@),
            offers(options@) == configured_offers(profiles@, provider@, all, usual, i as int),
        decreases profiles.len() - i,
    {
        let p = &profiles[i];
        if same(p.harness.as_str(), provider) && !is_offered(&options, p.model.as_str()) {
            put_offer(&mut options, configured_option(p, listed, fallback));
        }
        i += 1;
    }
    let ghost first = offers(options@);
    let mut k: usize = 0;
    while k < listed.len()
        invariant
            k <= listed.len(),
            all == offers(listed@),
            offers(options@) == all_offers(first, all, k as int),
        decreases listed.len() - k,
    {
        assert(all[k as int] == listed@[k as int].offer());
        if !is_offered(&options, listed[k].id.as_str()) {
            put_offer(&mut options, listed[k].copied());
        }
        k += 1;
    }
    options
}

/// Whether no model is offered twice.
pub open spec fn each_once(all: Seq<Offer>) -> bool {
    forall|i: int, j: int| 0 <= i < j < all.len() ==> (#[trigger] all[i]).id != (#[trigger] all[j]).id
}

proof fn offer_names_its_model(
    p: ResourceProfile,
    listed: Seq<Offer>,
    fallback: Seq<Seq<char>>,
    i: int,
)
    requires
        0 <= i,
    ensures
        listed_from(listed, p.model@, i) matches Some(o) ==> o.id == p.model@,
    decreases listed.len() - i,
{
    if i < listed.len() && listed[i].id != p.model@ {
        offer_names_its_model(p, listed, fallback, i + 1);
    }
}

proof fn configured_once(
    profiles: Seq<ResourceProfile>,
    provider: Seq<char>,
    listed: Seq<Offer>,
    fallback: Seq<Seq<char>>,
    n: int,
)
    requires
        0 <= n <= profiles.len(),
    ensures
        each_once(configured_offers(profiles, provider, listed, fallback, n)),
        forall|i: int|
            0 <= i < n && (#[trigger] profiles[i]).harness@ == provider ==> offered(
                configured_offers(profiles, provider, listed, fallback, n),
                profiles[i].model@,
            ),
    decreases n,
{
    if n > 0 {
        configured_once(profiles, provider, listed, fallback, n - 1);
        let before = configured_offers(profiles, provider, listed, fallback, n - 1);
        let all = configured_offers(profiles, provider, listed, fallback, n);
        let p = profiles[n - 1];
        offer_names_its_model(p, listed, fallback, 0);
        if p.harness@ == provider && !offered(before, p.model@) {
            assert(all[before.len() as int].id == p.model@);
            assert forall|i: int, j: int| 0 <= i < j < all.len() implies (#[trigger] all[i]).id != (
            #[trigger] all[j]).id by {
                assert(all[i] == before[i]);
                if j < before.len() {
                    assert(all[j] == before[j]);
                }
            }
            assert forall|i: int|
                0 <= i < n && (#[trigger] profiles[i]).harness@ == provider implies offered(
                all,
                profiles[i].model@,
            ) by {
                if i < n - 1 {
                    let k = choose|k: int|
                        0 <= k < before.len() && (#[trigger] before[k]).id == profiles[i].model@;
                    assert(all[k] == before[k]);
                } else {
                    assert(all[before.len() as int].id == profiles[i].model@);
                }
            }
        }
    }
}

proof fn listed_once(before: Seq<Offer>, listed: Seq<Offer>, n: int)
    requires
        0 <= n <= listed.len(),
        each_once(before),
    ensures
        each_once(all_offers(before, listed, n)),
        all_offers(before, listed, n).len() >= before.len(),
        all_offers(before, listed, n).take(before.len() as int) == before,
        forall|i: int|
            0 <= i < n ==> offered(all_offers(before, listed, n), (#[trigger] listed[i]).id),
    decreases n,
{
    if n <= 0 {
        assert(before.take(before.len() as int) =~= before);
    } else {
        listed_once(before, listed, n - 1);
        let most = all_offers(before, listed, n - 1);
        let all = all_offers(before, listed, n);
        if !offered(most, listed[n - 1].id) {
            assert(all[most.len() as int] == listed[n - 1]);
            assert(all.take(before.len() as int) =~= most.take(before.len() as int));
            assert forall|i: int, j: int| 0 <= i < j < all.len() implies (#[trigger] all[i]).id != (
            #[trigger] all[j]).id by {
                assert(all[i] == most[i]);
                if j < most.len() {
                    assert(all[j] == most[j]);
                }
            }
            assert forall|i: int| 0 <= i < n implies offered(all, (#[trigger] listed[i]).id) by {
                if i < n - 1 {
                    let k = choose|k: int|
                        0 <= k < most.len() && (#[trigger] most[k]).id == listed[i].id;
                    assert(all[k] == most[k]);
                }
            }
        }
    }
}

/// Every model that is configured for the provider or listed by it is offered, once, and the configured
/// ones come first.
pub proof fn every_model_is_offered_once(
    profiles: Seq<ResourceProfile>,
    provider: Seq<char>,
    listed: Seq<Offer>,
    fallback: Seq<Seq<char>>,
)
    ensures
        ({
            let first = configured_offers(
                profiles,
                provider,
                listed,
                fallback,
                profiles.len() as int,
            );
            let all = all_offers(first, listed, listed.len() as int);
            &&& each_once(all)
            &&& first.len() <= all.len() && all.take(first.len() as int) == first
            &&& forall|i: int|
                0 <= i < profiles.len() && (#[trigger] profiles[i]).harness@ == provider ==> offered(
                    all,
                    profiles[i].model@,
                )
            &&& forall|i: int| 0 <= i < listed.len() ==> offered(all, (#[trigger] listed[i]).id)
        }),
{
    let first = configured_offers(profiles, provider, listed, fallback, profiles.len() as int);
    let all = all_offers(first, listed, listed.len() as int);
    configured_once(profiles, provider, listed, fallback, profiles.len() as int);
    listed_once(first, listed, listed.len() as int);
    assert forall|i: int|
        0 <= i < profiles.len() && (#[trigger] profiles[i]).harness@ == provider implies offered(
        all,
        profiles[i].model@,
    ) by {
        let k = choose|k: int|
            0 <= k < first.len() && (#[trigger] first[k]).id == profiles[i].model@;
        assert(all.take(first.len() as int)[k] == first[k]);
        assert(all[k] == first[k]);
    }
}

/// What a choice among the models leads to.
#[derive(Debug, Clone, PartialEq, Eq)]
pub enum ModelStep {
    /// A model, the efforts to offer and the one to begin at.
    Chosen(ModelOption),
    /// Another model is typed.
    Type,
    Leave,
}

/// What a choice among the models leads to; a model without efforts of its own offers the usual ones.
pub fn model_step(options: &Vec<ModelOption>, fallback: &Vec<String>, choice: Option<usize>) -> (r:
    ModelStep)
    ensures
        match choice {
            None => r is Leave,
            Some(i) => if i < options@.len() {
                let o = options@[i as int].offer();
                r matches ModelStep::Chosen(m) && m.offer() == (if o.efforts.len() == 0 {
                    Offer { efforts: texts(fallback@), ..o }
                } else {
                    o
                })
            } else {
                r is Type
            },
        },
{
    match choice {
        None => ModelStep::Leave,
        Some(i) => {
            if i >= options.len() {
                return ModelStep::Type;
            }
            let mut chosen = options[i].copied();
            assert(chosen.efforts@.len() == texts(chosen.efforts@).len());
            if chosen.efforts.len() == 0 {
                chosen.efforts = copy_texts(fallback);
            }
            ModelStep::Chosen(chosen)
        },
    }
}

/// Where a text stands among texts, from `i` on.
pub open spec fn position_from(all: Seq<Seq<char>>, s: Seq<char>, i: int) -> Option<int>
    decreases all.len() - i,
{
    if i < 0 || i >= all.len() {
        None
    } else if all[i] == s {
        Some(i)
    } else {
        position_from(all, s, i + 1)
    }
}

fn position(all: &Vec<String>, s: &str) -> (r: Option<usize>)
    ensures
        match r {
            Some(i) => i < all.len() && position_from(texts(all@), s@, 0) == Some(i as int),
            None => position_from(texts(all@), s@, 0) is None,
        },
{
    let mut i: usize = 0;
    while i < all.len()
        invariant
            i <= all.len(),
            position_from(texts(all@), s@, 0) == position_from(texts(all@), s@, i as int),
        decreases all.len() - i,
    {
        assert(texts(all@)[i as int] == all@[i as int]@);
        if same(all[i].as_str(), s) {
            return Some(i);
        }
        i += 1;
    }
    None
}

/// The effort that the choice begins at: the default of the model, or else a medium one, or the first.
pub open spec fn first_effort(efforts: Seq<Seq<char>>, default: Option<Seq<char>>) -> int {
    let own = match default {
        Some(d) => position_from(efforts, d, 0),
        None => None,
    };
    match own {
        Some(i) => i,
        None => match position_from(efforts, "medium"@, 0) {
            Some(i) => i,
            None => 0,
        },
    }
}

/// The effort that the choice begins at.
pub fn initial_effort(efforts: &Vec<String>, default: &Option<String>) -> (r: usize)
    ensures
        r == first_effort(texts(efforts@), optional_view(*default)),
        efforts@.len() > 0 ==> r < efforts@.len(),
{
    if let Some(d) = default {
        if let Some(i) = position(efforts, d.as_str()) {
            return i;
        }
    }
    match position(efforts, "medium") {
        Some(i) => i,
        None => 0,
    }
}

/// The state of the session hooks of a provider, and what installing them does.
pub fn integrations_text(name: &str, installed: bool, path: &str) -> (r: String)
    ensures
        r@ == "Runtime integrations\n"@ + name@ + " hooks: "@ + (if installed {
            "installed"@
        } else {
            "not installed"@
        }) + " ("@ + path@
            + ")\nWith them, a "@ + name@
            + " session in its own worktree of a project you watch (dispatch start) appears as Work by itself; a session in the checkout itself is told Dispatch cannot follow it."@,
{
    let mut text = "Runtime integrations\n".to_owned();
    text.push_str(name);
    text.push_str(" hooks: ");
    text.push_str(
        if installed {
            "installed"
        } else {
            "not installed"
        },
    );
    text.push_str(" (");
    text.push_str(path);
    text.push_str(")\nWith them, a ");
    text.push_str(name);
    text.push_str(
        " session in its own worktree of a project you watch (dispatch start) appears as Work by itself; a session in the checkout itself is told Dispatch cannot follow it.",
    );
    text
}

/// What is asked before session hooks are installed or removed: exactly what is added, and where.
pub fn hooks_question(provider: &str, installed: bool, path: &str, preview: &str) -> (r: String)
    ensures
        r@ == (if installed {
            "Remove Dispatch's hooks from "@ + path@
                + "?\nOnly the entries running `... hook "@ + provider@
                + "` are removed; a backup is kept beside the file."@
        } else {
            "Add these hooks to "@ + path@ + "?\n"@ + preview@
                + "\nOther settings and hooks are kept (key order may change); a backup is kept beside the file."@
        }),
{
    if installed {
        let mut text = "Remove Dispatch's hooks from ".to_owned();
        text.push_str(path);
        text.push_str("?\nOnly the entries running `... hook ");
        text.push_str(provider);
        text.push_str("` are removed; a backup is kept beside the file.");
        text
    } else {
        let mut text = "Add these hooks to ".to_owned();
        text.push_str(path);
        text.push_str("?\n");
        text.push_str(preview);
        text.push_str(
            "\nOther settings and hooks are kept (key order may change); a backup is kept beside the file.",
        );
        text
    }
}

/// What is said when session hooks were installed or removed.
pub fn hooks_done(name: &str, installed: bool, backup: Option<&str>) -> (r: String)
    ensures
        r@ == name@ + " hooks "@ + (if installed {
            "removed"@
        } else {
            "installed"@
        }) + "."@ + (match backup {
            Some(path) => " Previous settings: "@ + path@ + "."@,
            None => Seq::empty(),
        }),
{
    let mut text = name.to_owned();
    text.push_str(" hooks ");
    text.push_str(
        if installed {
            "removed"
        } else {
            "installed"
        },
    );
    text.push_str(".");
    let ghost start = text@;
    match backup {
        Some(path) => {
            text.push_str(" Previous settings: ");
            text.push_str(path);
            text.push_str(".");
            assert(text@ =~= start + (" Previous settings: "@ + path@ + "."@));
        },
        None => {
            assert(text@ =~= start + Seq::<char>::empty());
        },
    }
    text
}

/// What a choice among the checks of a project leads to.
#[derive(Debug, Clone, Copy, PartialEq, Eq, Structural)]
pub enum ChecksStep {
    Save(usize),
    Type,
    Without,
    Cancelled,
}

/// What a choice among the checks of a project leads to, where `commands` of them are known.
pub fn checks_step(choice: Option<usize>, commands: usize) -> (r: ChecksStep)
    ensures
        r == (match choice {
            Some(i) => if i < commands {
                ChecksStep::Save(i)
            } else if i == commands {
                ChecksStep::Type
            } else if i - 1 == commands {
                ChecksStep::Without
            } else {
                ChecksStep::Cancelled
            },
            None => ChecksStep::Cancelled,
        }),
{
    match choice {
        Some(i) => {
            if i < commands {
                ChecksStep::Save(i)
            } else if i == commands {
                ChecksStep::Type
            } else if i - 1 == commands {
                ChecksStep::Without
            } else {
                ChecksStep::Cancelled
            }
        },
        None => ChecksStep::Cancelled,
    }
}

/// The efforts that are offered where a model lists none of its own: those that the adapter of the
/// provider knows, or else the usual ones.
pub fn usual_efforts(known: &Option<Vec<String>>) -> (r: Vec<String>)
    ensures
        texts(r@) == (match *known {
            Some(efforts) => texts(efforts@),
            None => seq!["minimal"@, "low"@, "medium"@, "high"@, "xhigh"@],
        }),
{
    if let Some(efforts) = known {
        return copy_texts(efforts);
    }
    let mut out: Vec<String> = Vec::new();
    put(&mut out, "minimal");
    put(&mut out, "low");
    put(&mut out, "medium");
    put(&mut out, "high");
    put(&mut out, "xhigh");
    assert(texts(out@) =~= seq!["minimal"@, "low"@, "medium"@, "high"@, "xhigh"@]);
    out
}

} // verus!
