//! Public priors: benchmark outcomes that are distributed in canonical snapshots.
//!
//! A snapshot is identified by the hash of its entries, so that two snapshots with the same identifier
//! hold the same entries in the same order.

use vstd::prelude::*;
use vstd::utf8::*;

use crate::text::{
    before, before_is_irreflexive, before_is_total, before_is_transitive, byte_len, bytes_in,
    chars_of, copy_optional, debug_of, debug_text, decimal, decimal_of, is_control, optional_view,
    same, sorts_before, trim, trimmed,
};
use crate::digest::{hash_text, json_string, json_string_of, text_hash};
use crate::record::behind;
use crate::router::{TaskKind, TaskScope};

verus! {

/// The version of the form that snapshots have.
pub const PUBLIC_PRIOR_SCHEMA_VERSION: u32 = 1;

/// A set of priors in its distributed form.
#[derive(Debug, Clone, PartialEq, Eq)]
pub struct PublicPriorSnapshotV1 {
    pub schema_version: u32,
    pub snapshot_id: String,
    /// Microseconds since the epoch.
    pub generated_at: i64,
    pub entries: Vec<PublicPriorEntryV1>,
}

/// How often a harness succeeded on a kind of task in a benchmark.
#[derive(Debug, Clone, PartialEq, Eq)]
pub struct PublicPriorEntryV1 {
    pub source: String,
    pub dataset: String,
    pub dataset_version: String,
    pub harness: String,
    pub model: Option<String>,
    pub language: Option<String>,
    pub task_kind: TaskKind,
    pub scope: TaskScope,
    pub successes: u64,
    pub attempts: u64,
}

/// A prior as it is kept, with when it was updated.
#[derive(Debug, Clone, PartialEq, Eq)]
pub struct BenchmarkPrior {
    pub source: String,
    pub dataset: String,
    pub dataset_version: String,
    pub harness: String,
    pub model: Option<String>,
    pub language: Option<String>,
    pub task_kind: TaskKind,
    pub scope: TaskScope,
    pub successes: u64,
    pub attempts: u64,
    pub updated_at: i64,
}

/// Whether an entry says what a prior says.
pub open spec fn entry_of(e: PublicPriorEntryV1, p: BenchmarkPrior) -> bool {
    &&& e.source == p.source
    &&& e.dataset == p.dataset
    &&& e.dataset_version == p.dataset_version
    &&& e.harness == p.harness
    &&& e.model == p.model
    &&& e.language == p.language
    &&& e.task_kind == p.task_kind
    &&& e.scope == p.scope
    &&& e.successes == p.successes
    &&& e.attempts == p.attempts
}

/// The entry of a prior.
pub open spec fn as_entry(p: BenchmarkPrior) -> PublicPriorEntryV1 {
    PublicPriorEntryV1 {
        source: p.source,
        dataset: p.dataset,
        dataset_version: p.dataset_version,
        harness: p.harness,
        model: p.model,
        language: p.language,
        task_kind: p.task_kind,
        scope: p.scope,
        successes: p.successes,
        attempts: p.attempts,
    }
}

impl PublicPriorEntryV1 {
    /// The entry of a prior.
    pub fn from_prior(prior: BenchmarkPrior) -> (r: Self)
        ensures
            r == as_entry(prior),
    {
        PublicPriorEntryV1 {
            source: prior.source,
            dataset: prior.dataset,
            dataset_version: prior.dataset_version,
            harness: prior.harness,
            model: prior.model,
            language: prior.language,
            task_kind: prior.task_kind,
            scope: prior.scope,
            successes: prior.successes,
            attempts: prior.attempts,
        }
    }

    /// The prior that the entry stands for.
    pub fn to_prior(&self, updated_at: i64) -> (r: BenchmarkPrior)
        ensures
            entry_of(*self, r),
            r.updated_at == updated_at,
    {
        BenchmarkPrior {
            source: self.source.clone(),
            dataset: self.dataset.clone(),
            dataset_version: self.dataset_version.clone(),
            harness: self.harness.clone(),
            model: copy_optional(&self.model),
            language: copy_optional(&self.language),
            task_kind: self.task_kind,
            scope: self.scope,
            successes: self.successes,
            attempts: self.attempts,
            updated_at,
        }
    }
}

/// A prior keeps everything on its way into an entry and back.
pub proof fn priors_survive_the_round_trip(p: BenchmarkPrior, back: BenchmarkPrior)
    requires
        entry_of(as_entry(p), back),
        back.updated_at == p.updated_at,
    ensures
        back == p,
{
}

/// Whether some character of a text is a control character.
pub open spec fn has_control(s: Seq<char>) -> bool {
    exists|i: int| 0 <= i < s.len() && is_control(#[trigger] s[i])
}

/// Why a text cannot stand in an entry, if it cannot.
pub open spec fn text_error(value: Seq<char>, field: Seq<char>) -> Option<Seq<char>> {
    if value.len() == 0 || trim(value) != value {
        Some("public prior "@ + field + " must be non-empty without surrounding whitespace"@)
    } else if byte_len(value) > 256 || has_control(value) {
        Some("public prior "@ + field + " is malformed"@)
    } else {
        None
    }
}

/// Whether a language is one that priors exist for.
pub open spec fn is_language(s: Seq<char>) -> bool {
    s == "rust"@ || s == "python"@ || s == "go"@ || s == "cpp"@
}

/// Why an entry is refused, if it is.
pub open spec fn entry_error(e: PublicPriorEntryV1) -> Option<Seq<char>> {
    if text_error(e.source@, "source"@) is Some {
        text_error(e.source@, "source"@)
    } else if text_error(e.dataset@, "dataset"@) is Some {
        text_error(e.dataset@, "dataset"@)
    } else if text_error(e.dataset_version@, "dataset_version"@) is Some {
        text_error(e.dataset_version@, "dataset_version"@)
    } else if text_error(e.harness@, "harness"@) is Some {
        text_error(e.harness@, "harness"@)
    } else if e.model is Some && text_error(e.model->0@, "model"@) is Some {
        text_error(e.model->0@, "model"@)
    } else if e.language is Some && !is_language(e.language->0@) {
        Some("unsupported public prior language "@ + debug_text(e.language->0@))
    } else if e.attempts == 0 {
        Some("public prior attempts must be positive"@)
    } else if e.successes > e.attempts {
        Some("public prior successes cannot exceed attempts"@)
    } else {
        None
    }
}

fn find_control(s: &str) -> (r: bool)
    ensures
        r == has_control(s@),
{
    let chars = chars_of(s);
    let mut i: usize = 0;
    while i < chars.len()
        invariant
            i <= chars.len(),
            chars@ == s@,
            forall|k: int| 0 <= k < i ==> !is_control(#[trigger] s@[k]),
        decreases chars.len() - i,
    {
        let n: u32 = chars[i] as u32;
        if n <= 0x1f || (0x7f <= n && n <= 0x9f) {
            assert(is_control(s@[i as int]));
            return true;
        }
        i += 1;
    }
    false
}

fn checked_text(value: &str, field: &str) -> (r: Result<(), String>)
    ensures
        match text_error(value@, field@) {
            Some(message) => r matches Err(e) && e@ == message,
            None => r is Ok,
        },
{
    let bare = trimmed(value);
    if value.is_empty() || !same(bare.as_str(), value) {
        let mut text = "public prior ".to_owned();
        text.push_str(field);
        text.push_str(" must be non-empty without surrounding whitespace");
        return Err(text);
    }
    if bytes_in(value) > 256 || find_control(value) {
        let mut text = "public prior ".to_owned();
        text.push_str(field);
        text.push_str(" is malformed");
        return Err(text);
    }
    Ok(())
}

impl PublicPriorEntryV1 {
    /// Refuses an entry that is malformed or counts more successes than attempts.
    pub fn validate(&self) -> (r: Result<(), String>)
        ensures
            match entry_error(*self) {
                Some(message) => r matches Err(e) && e@ == message,
                None => r is Ok,
            },
    {
        if let Err(e) = checked_text(self.source.as_str(), "source") {
            return Err(e);
        }
        if let Err(e) = checked_text(self.dataset.as_str(), "dataset") {
            return Err(e);
        }
        if let Err(e) = checked_text(self.dataset_version.as_str(), "dataset_version") {
            return Err(e);
        }
        if let Err(e) = checked_text(self.harness.as_str(), "harness") {
            return Err(e);
        }
        if let Some(model) = &self.model {
            if let Err(e) = checked_text(model.as_str(), "model") {
                return Err(e);
            }
        }
        if let Some(language) = &self.language {
            let word = language.as_str();
            if !same(word, "rust") && !same(word, "python") && !same(word, "go") && !same(word, "cpp") {
                let mut text = "unsupported public prior language ".to_owned();
                let quoted = debug_of(word);
                text.push_str(quoted.as_str());
                return Err(text);
            }
        }
        if self.attempts == 0 {
            return Err("public prior attempts must be positive".to_owned());
        }
        if self.successes > self.attempts {
            return Err("public prior successes cannot exceed attempts".to_owned());
        }
        Ok(())
    }
}

/// How two things stand to each other in an order.
#[derive(Debug, Clone, Copy, PartialEq, Eq, Structural)]
pub enum Place {
    First,
    Same,
    Last,
}

/// How two texts stand to each other.
pub open spec fn place_of(a: Seq<char>, b: Seq<char>) -> Place {
    if a == b {
        Place::Same
    } else if before(a, b) {
        Place::First
    } else {
        Place::Last
    }
}

/// How two optional texts stand to each other: one that is missing stands first.
pub open spec fn place_of_optional(a: Option<Seq<char>>, b: Option<Seq<char>>) -> Place {
    match (a, b) {
        (None, None) => Place::Same,
        (None, Some(_)) => Place::First,
        (Some(_), None) => Place::Last,
        (Some(x), Some(y)) => place_of(x, y),
    }
}

/// The first of two places that decides.
pub open spec fn or_else(a: Place, b: Place) -> Place {
    if a == Place::Same {
        b
    } else {
        a
    }
}

/// How two entries stand to each other in a canonical snapshot.
pub open spec fn entry_place(a: PublicPriorEntryV1, b: PublicPriorEntryV1) -> Place {
    or_else(
        place_of(a.source@, b.source@),
        or_else(
            place_of(a.dataset@, b.dataset@),
            or_else(
                place_of(a.dataset_version@, b.dataset_version@),
                or_else(
                    place_of(a.harness@, b.harness@),
                    or_else(
                        place_of_optional(optional_view(a.model), optional_view(b.model)),
                        or_else(
                            place_of_optional(optional_view(a.language), optional_view(b.language)),
                            or_else(
                                place_of(a.task_kind.name(), b.task_kind.name()),
                                place_of(a.scope.name(), b.scope.name()),
                            ),
                        ),
                    ),
                ),
            ),
        ),
    )
}

fn text_place(a: &str, b: &str) -> (r: Place)
    ensures
        r == place_of(a@, b@),
{
    if same(a, b) {
        Place::Same
    } else if sorts_before(a, b) {
        Place::First
    } else {
        Place::Last
    }
}

fn optional_place(a: &Option<String>, b: &Option<String>) -> (r: Place)
    ensures
        r == place_of_optional(optional_view(*a), optional_view(*b)),
{
    match (a, b) {
        (None, None) => Place::Same,
        (None, Some(_)) => Place::First,
        (Some(_), None) => Place::Last,
        (Some(x), Some(y)) => text_place(x.as_str(), y.as_str()),
    }
}

/// How two entries stand to each other in a canonical snapshot.
pub fn place_entries(a: &PublicPriorEntryV1, b: &PublicPriorEntryV1) -> (r: Place)
    ensures
        r == entry_place(*a, *b),
{
    let p = text_place(a.source.as_str(), b.source.as_str());
    if p != Place::Same {
        return p;
    }
    let p = text_place(a.dataset.as_str(), b.dataset.as_str());
    if p != Place::Same {
        return p;
    }
    let p = text_place(a.dataset_version.as_str(), b.dataset_version.as_str());
    if p != Place::Same {
        return p;
    }
    let p = text_place(a.harness.as_str(), b.harness.as_str());
    if p != Place::Same {
        return p;
    }
    let p = optional_place(&a.model, &b.model);
    if p != Place::Same {
        return p;
    }
    let p = optional_place(&a.language, &b.language);
    if p != Place::Same {
        return p;
    }
    let p = text_place(a.task_kind.as_str(), b.task_kind.as_str());
    if p != Place::Same {
        return p;
    }
    text_place(a.scope.as_str(), b.scope.as_str())
}

/// Whether no entry stands after the one that follows it.
pub open spec fn is_canonical(entries: Seq<PublicPriorEntryV1>) -> bool {
    forall|i: int, j: int|
        0 <= i < j < entries.len() ==> entry_place(#[trigger] entries[i], #[trigger] entries[j])
            != Place::Last
}

proof fn text_places(a: Seq<char>, b: Seq<char>, c: Seq<char>)
    ensures
        place_of(a, b) == Place::First <==> place_of(b, a) == Place::Last,
        place_of(a, b) == Place::Same <==> a == b,
        place_of(a, b) == Place::First && place_of(b, c) == Place::First ==> place_of(a, c)
            == Place::First,
{
    before_is_total(a, b);
    before_is_irreflexive(a);
    if before(a, b) {
        if before(b, a) {
            before_is_transitive(a, b, a);
        }
        if before(b, c) {
            before_is_transitive(a, b, c);
            if a == c {
                before_is_irreflexive(a);
            }
        }
    }
}

proof fn optional_places(a: Option<Seq<char>>, b: Option<Seq<char>>, c: Option<Seq<char>>)
    ensures
        place_of_optional(a, b) == Place::First <==> place_of_optional(b, a) == Place::Last,
        place_of_optional(a, b) == Place::Same <==> a == b,
        place_of_optional(a, b) == Place::First && place_of_optional(b, c) == Place::First
            ==> place_of_optional(a, c) == Place::First,
{
    if a is Some && b is Some {
        text_places(a->0, b->0, if c is Some {
            c->0
        } else {
            a->0
        });
    }
}

/// The canonical order is an order: opposite ways round it is opposite, and it carries over.
pub proof fn canonical_order_is_total(
    a: PublicPriorEntryV1,
    b: PublicPriorEntryV1,
    c: PublicPriorEntryV1,
)
    ensures
        entry_place(a, b) == Place::First <==> entry_place(b, a) == Place::Last,
        entry_place(a, a) == Place::Same,
        entry_place(a, b) != Place::Last && entry_place(b, c) != Place::Last ==> entry_place(a, c)
            != Place::Last,
{
    text_places(a.source@, b.source@, c.source@);
    text_places(b.source@, c.source@, a.source@);
    text_places(a.dataset@, b.dataset@, c.dataset@);
    text_places(b.dataset@, c.dataset@, a.dataset@);
    text_places(a.dataset_version@, b.dataset_version@, c.dataset_version@);
    text_places(b.dataset_version@, c.dataset_version@, a.dataset_version@);
    text_places(a.harness@, b.harness@, c.harness@);
    text_places(b.harness@, c.harness@, a.harness@);
    optional_places(optional_view(a.model), optional_view(b.model), optional_view(c.model));
    optional_places(optional_view(b.model), optional_view(c.model), optional_view(a.model));
    optional_places(optional_view(a.language), optional_view(b.language), optional_view(c.language));
    optional_places(optional_view(b.language), optional_view(c.language), optional_view(a.language));
    text_places(a.task_kind.name(), b.task_kind.name(), c.task_kind.name());
    text_places(b.task_kind.name(), c.task_kind.name(), a.task_kind.name());
    text_places(a.scope.name(), b.scope.name(), c.scope.name());
    text_places(b.scope.name(), c.scope.name(), a.scope.name());
}

/// An optional text as JSON.
pub open spec fn json_optional(s: Option<String>) -> Seq<char> {
    match s {
        Some(text) => json_string(text@),
        None => "null"@,
    }
}

/// An entry as JSON.
pub open spec fn entry_json(e: PublicPriorEntryV1) -> Seq<char> {
    "{\"source\":"@ + json_string(e.source@) + ",\"dataset\":"@ + json_string(e.dataset@)
        + ",\"dataset_version\":"@ + json_string(e.dataset_version@) + ",\"harness\":"@ + json_string(
        e.harness@,
    ) + ",\"model\":"@ + json_optional(e.model) + ",\"language\":"@ + json_optional(e.language)
        + ",\"task_kind\":\""@ + e.task_kind.name() + "\",\"scope\":\""@ + e.scope.name()
        + "\",\"successes\":"@ + decimal(e.successes as nat) + ",\"attempts\":"@ + decimal(
        e.attempts as nat,
    ) + "}"@
}

/// Entries as a JSON list, without the brackets.
pub open spec fn entries_json(entries: Seq<PublicPriorEntryV1>) -> Seq<char>
    decreases entries.len(),
{
    if entries.len() == 0 {
        Seq::empty()
    } else if entries.len() == 1 {
        entry_json(entries[0])
    } else {
        entries_json(entries.drop_last()) + ","@ + entry_json(entries.last())
    }
}

/// The identifier of a snapshot with these entries.
pub open spec fn content_of(entries: Seq<PublicPriorEntryV1>) -> Seq<char> {
    "sha256:"@ + hash_text(encode_utf8("["@ + entries_json(entries) + "]"@))
}

fn push_optional(out: &mut String, s: &Option<String>)
    ensures
        final(out)@ == old(out)@ + json_optional(*s),
{
    match s {
        Some(text) => {
            let quoted = json_string_of(text.as_str());
            out.push_str(quoted.as_str());
        },
        None => {
            out.push_str("null");
        },
    }
}

fn push_text(out: &mut String, s: &str)
    ensures
        final(out)@ == old(out)@ + json_string(s@),
{
    let quoted = json_string_of(s);
    out.push_str(quoted.as_str());
}

fn write_entry(e: &PublicPriorEntryV1) -> (r: String)
    ensures
        r@ == entry_json(*e),
{
    let mut out = "{\"source\":".to_owned();
    push_text(&mut out, e.source.as_str());
    out.push_str(",\"dataset\":");
    push_text(&mut out, e.dataset.as_str());
    out.push_str(",\"dataset_version\":");
    push_text(&mut out, e.dataset_version.as_str());
    out.push_str(",\"harness\":");
    push_text(&mut out, e.harness.as_str());
    out.push_str(",\"model\":");
    push_optional(&mut out, &e.model);
    out.push_str(",\"language\":");
    push_optional(&mut out, &e.language);
    out.push_str(",\"task_kind\":\"");
    out.push_str(e.task_kind.as_str());
    out.push_str("\",\"scope\":\"");
    out.push_str(e.scope.as_str());
    out.push_str("\",\"successes\":");
    out.push_str(decimal_of(e.successes).as_str());
    out.push_str(",\"attempts\":");
    out.push_str(decimal_of(e.attempts).as_str());
    out.push_str("}");
    out
}

/// The identifier of a snapshot with these entries: the hash of their JSON form.
pub fn content_id(entries: &Vec<PublicPriorEntryV1>) -> (r: String)
    ensures
        r@ == content_of(entries@),
{
    let mut json = "[".to_owned();
    let mut i: usize = 0;
    assert(json@ =~= "["@ + entries_json(entries@.take(0)));
    while i < entries.len()
        invariant
            i <= entries.len(),
            json@ == "["@ + entries_json(entries@.take(i as int)),
        decreases entries.len() - i,
    {
        assert(entries@.take(i as int + 1).drop_last() =~= entries@.take(i as int));
        if i > 0 {
            json.push_str(",");
        }
        let entry = write_entry(&entries[i]);
        json.push_str(entry.as_str());
        assert(json@ =~= "["@ + entries_json(entries@.take(i as int + 1)));
        i += 1;
    }
    assert(entries@.take(entries@.len() as int) =~= entries@);
    json.push_str("]");
    let mut id = "sha256:".to_owned();
    let hash = text_hash(json.as_str());
    id.push_str(hash.as_str());
    id
}

/// Whether each entry stands no later than the one that follows it.
pub open spec fn neighbours_in_order(entries: Seq<PublicPriorEntryV1>) -> bool {
    forall|i: int| 0 < i < entries.len() ==> in_order_at(entries, #[trigger] step(i))
}

/// A place in a sequence of entries.
pub open spec fn step(i: int) -> int {
    i
}

/// Whether the entry at `i` stands no earlier than the one before it.
pub open spec fn in_order_at(entries: Seq<PublicPriorEntryV1>, i: int) -> bool {
    entry_place(entries[i - 1], entries[i]) != Place::Last
}

proof fn neighbours_make_canonical(entries: Seq<PublicPriorEntryV1>, i: int, j: int)
    requires
        neighbours_in_order(entries),
        0 <= i <= j < entries.len(),
    ensures
        entry_place(entries[i], entries[j]) != Place::Last,
    decreases j - i,
{
    if i == j {
        canonical_order_is_total(entries[i], entries[i], entries[i]);
    } else {
        neighbours_make_canonical(entries, i, j - 1);
        assert(in_order_at(entries, step(j)));
        canonical_order_is_total(entries[i], entries[j - 1], entries[j]);
    }
}

/// The first refused entry from `from` on.
pub open spec fn entries_error(entries: Seq<PublicPriorEntryV1>, from: int) -> Option<Seq<char>>
    decreases entries.len() - from,
{
    if from < 0 || from >= entries.len() {
        None
    } else if entry_error(entries[from]) is Some {
        entry_error(entries[from])
    } else {
        entries_error(entries, from + 1)
    }
}

/// Why a snapshot is refused, if it is.
pub open spec fn snapshot_error(s: PublicPriorSnapshotV1) -> Option<Seq<char>> {
    if s.schema_version != PUBLIC_PRIOR_SCHEMA_VERSION {
        Some("unsupported public prior schema version "@ + decimal(s.schema_version as nat))
    } else if s.entries@.len() == 0 {
        Some("public prior snapshot has no entries"@)
    } else if !is_canonical(s.entries@) {
        Some("public prior entries are not canonically sorted"@)
    } else if entries_error(s.entries@, 0) is Some {
        entries_error(s.entries@, 0)
    } else if s.snapshot_id@ != content_of(s.entries@) {
        Some("public prior snapshot ID does not match its entries"@)
    } else {
        None
    }
}

/// The latest of some times.
pub open spec fn is_latest(at: i64, priors: Seq<BenchmarkPrior>) -> bool {
    &&& forall|i: int| 0 <= i < priors.len() ==> (#[trigger] priors[i]).updated_at <= at
    &&& exists|i: int| 0 <= i < priors.len() && (#[trigger] priors[i]).updated_at == at
}

/// The entries of priors, in their order.
pub open spec fn entries_of(priors: Seq<BenchmarkPrior>) -> Seq<PublicPriorEntryV1> {
    priors.map_values(|p: BenchmarkPrior| as_entry(p))
}

fn sorted_in(entries: &Vec<PublicPriorEntryV1>) -> (r: bool)
    ensures
        r == is_canonical(entries@),
{
    let mut i: usize = 1;
    while i < entries.len()
        invariant
            1 <= i,
            entries@.len() == 0 || i <= entries@.len(),
            forall|k: int| 0 < k < i && k < entries@.len() ==> in_order_at(entries@, #[trigger] step(k)),
        decreases entries@.len() - i,
    {
        if place_entries(&entries[i - 1], &entries[i]) == Place::Last {
            assert(entry_place(entries@[i - 1], entries@[i as int]) == Place::Last);
            return false;
        }
        assert(in_order_at(entries@, step(i as int)));
        i += 1;
    }
    assert(neighbours_in_order(entries@));
    assert forall|a: int, b: int| 0 <= a < b < entries@.len() implies entry_place(
        #[trigger] entries@[a],
        #[trigger] entries@[b],
    ) != Place::Last by {
        neighbours_make_canonical(entries@, a, b);
    }
    true
}

/// Where an entry goes among the first `n` of some entries: behind all that stand no later.
pub open spec fn place_in(entries: Seq<PublicPriorEntryV1>, e: PublicPriorEntryV1, n: int) -> int
    decreases n,
{
    if n <= 0 || entry_place(entries[n - 1], e) != Place::Last {
        n
    } else {
        place_in(entries, e, n - 1)
    }
}

/// Entries in canonical order; those that stand together keep the order they came in.
pub open spec fn in_canonical_order(entries: Seq<PublicPriorEntryV1>) -> Seq<PublicPriorEntryV1>
    decreases entries.len(),
{
    if entries.len() == 0 {
        entries
    } else {
        let earlier = in_canonical_order(entries.drop_last());
        earlier.insert(place_in(earlier, entries.last(), earlier.len() as int), entries.last())
    }
}

proof fn place_in_separates(entries: Seq<PublicPriorEntryV1>, e: PublicPriorEntryV1, n: int)
    requires
        0 <= n <= entries.len(),
    ensures
        0 <= place_in(entries, e, n) <= n,
        place_in(entries, e, n) > 0 ==> entry_place(entries[place_in(entries, e, n) - 1], e)
            != Place::Last,
        forall|i: int|
            place_in(entries, e, n) <= i < n ==> entry_place(#[trigger] entries[i], e) == Place::Last,
    decreases n,
{
    if n > 0 && entry_place(entries[n - 1], e) == Place::Last {
        place_in_separates(entries, e, n - 1);
    }
}

/// Canonical order is canonical, and neither drops nor adds an entry.
pub proof fn canonical_order_keeps_every_entry(entries: Seq<PublicPriorEntryV1>)
    ensures
        is_canonical(in_canonical_order(entries)),
        in_canonical_order(entries).len() == entries.len(),
        in_canonical_order(entries).to_multiset() == entries.to_multiset(),
    decreases entries.len(),
{
    if entries.len() > 0 {
        let e = entries.last();
        let was = in_canonical_order(entries.drop_last());
        let p = place_in(was, e, was.len() as int);
        let new = in_canonical_order(entries);
        canonical_order_keeps_every_entry(entries.drop_last());
        place_in_separates(was, e, was.len() as int);
        assert forall|i: int, j: int| 0 <= i < j < new.len() implies entry_place(
            #[trigger] new[i],
            #[trigger] new[j],
        ) != Place::Last by {
            if i < p && j < p {
                assert(new[i] == was[i] && new[j] == was[j]);
            } else if i < p && j == p {
                assert(new[i] == was[i]);
                canonical_order_is_total(was[i], was[p - 1], e);
                if i < p - 1 {
                    assert(entry_place(was[i], was[p - 1]) != Place::Last);
                } else {
                    canonical_order_is_total(was[i], was[i], e);
                }
            } else if i < p {
                assert(new[i] == was[i] && new[j] == was[j - 1]);
            } else if i == p {
                assert(new[j] == was[j - 1]);
                canonical_order_is_total(e, was[j - 1], e);
            } else {
                assert(new[i] == was[i - 1] && new[j] == was[j - 1]);
            }
        }
        vstd::seq_lib::to_multiset_insert(was, p, e);
        vstd::seq_lib::to_multiset_build(entries.drop_last(), e);
        assert(entries.drop_last().push(e) =~= entries);
    }
}

fn insert_entry(entries: &mut Vec<PublicPriorEntryV1>, e: PublicPriorEntryV1)
    ensures
        final(entries)@ == old(entries)@.insert(
            place_in(old(entries)@, e, old(entries)@.len() as int),
            e,
        ),
{
    let ghost was = entries@;
    let mut p: usize = entries.len();
    while p > 0 && place_entries(&entries[p - 1], &e) == Place::Last
        invariant
            entries@ == was,
            p <= was.len(),
            place_in(was, e, was.len() as int) == place_in(was, e, p as int),
        decreases p,
    {
        p -= 1;
    }
    entries.insert(p, e);
}

impl PublicPriorSnapshotV1 {
    /// Refuses a snapshot that is empty, malformed, out of order, or whose identifier is not that of its
    /// entries.
    pub fn validate(&self) -> (r: Result<(), String>)
        ensures
            match snapshot_error(*self) {
                Some(message) => r matches Err(e) && e@ == message,
                None => r is Ok,
            },
    {
        if self.schema_version != PUBLIC_PRIOR_SCHEMA_VERSION {
            let mut text = "unsupported public prior schema version ".to_owned();
            text.push_str(decimal_of(self.schema_version as u64).as_str());
            return Err(text);
        }
        if self.entries.len() == 0 {
            return Err("public prior snapshot has no entries".to_owned());
        }
        if !sorted_in(&self.entries) {
            return Err("public prior entries are not canonically sorted".to_owned());
        }
        let mut i: usize = 0;
        while i < self.entries.len()
            invariant
                i <= self.entries.len(),
                self.schema_version == PUBLIC_PRIOR_SCHEMA_VERSION,
                self.entries@.len() > 0,
                is_canonical(self.entries@),
                entries_error(self.entries@, 0) == entries_error(self.entries@, i as int),
            decreases self.entries.len() - i,
        {
            if let Err(e) = self.entries[i].validate() {
                return Err(e);
            }
            i += 1;
        }
        let id = content_id(&self.entries);
        if !same(self.snapshot_id.as_str(), id.as_str()) {
            return Err("public prior snapshot ID does not match its entries".to_owned());
        }
        Ok(())
    }

    /// The canonical snapshot of some priors.
    pub fn from_priors(priors: Vec<BenchmarkPrior>) -> (r: Result<Self, String>)
        ensures
            ({
                let entries = in_canonical_order(entries_of(priors@));
                if priors@.len() == 0 {
                    r matches Err(e) && e@ == "public prior snapshot has no entries"@
                } else {
                    match entries_error(entries, 0) {
                        Some(message) => r matches Err(e) && e@ == message,
                        None => r matches Ok(s) && {
                            &&& s.schema_version == PUBLIC_PRIOR_SCHEMA_VERSION
                            &&& s.snapshot_id@ == content_of(entries)
                            &&& is_latest(s.generated_at, priors@)
                            &&& s.entries@ == entries
                        },
                    }
                }
            }),
    {
        if priors.len() == 0 {
            return Err("public prior snapshot has no entries".to_owned());
        }
        let mut generated_at: i64 = priors[0].updated_at;
        let mut entries: Vec<PublicPriorEntryV1> = Vec::new();
        let ghost all = priors@;
        let mut i: usize = 0;
        assert(entries_of(all.take(0)) =~= Seq::empty());
        while i < priors.len()
            invariant
                i <= priors.len(),
                all == priors@,
                all.len() > 0,
                entries@ == in_canonical_order(entries_of(all.take(i as int))),
                forall|k: int| 0 <= k < i ==> (#[trigger] all[k]).updated_at <= generated_at,
                exists|k: int| 0 <= k < all.len() && (#[trigger] all[k]).updated_at == generated_at,
            decreases priors.len() - i,
        {
            let p = &priors[i];
            if p.updated_at > generated_at {
                generated_at = p.updated_at;
            }
            assert(all[i as int].updated_at <= generated_at);
            let entry = PublicPriorEntryV1 {
                source: p.source.clone(),
                dataset: p.dataset.clone(),
                dataset_version: p.dataset_version.clone(),
                harness: p.harness.clone(),
                model: copy_optional(&p.model),
                language: copy_optional(&p.language),
                task_kind: p.task_kind,
                scope: p.scope,
                successes: p.successes,
                attempts: p.attempts,
            };
            insert_entry(&mut entries, entry);
            proof {
                let longer = entries_of(all.take(i as int + 1));
                assert(longer.drop_last() =~= entries_of(all.take(i as int)));
                assert(longer.last() == entry);
            }
            i += 1;
        }
        assert(all.take(all.len() as int) =~= all);
        proof {
            canonical_order_keeps_every_entry(entries_of(all));
        }
        let snapshot_id = content_id(&entries);
        let snapshot = PublicPriorSnapshotV1 {
            schema_version: PUBLIC_PRIOR_SCHEMA_VERSION,
            snapshot_id,
            generated_at,
            entries,
        };
        match snapshot.validate() {
            Ok(()) => Ok(snapshot),
            Err(e) => Err(e),
        }
    }
}

/// A snapshot that is made of priors is valid.
pub proof fn made_snapshots_are_valid(priors: Seq<BenchmarkPrior>, s: PublicPriorSnapshotV1)
    requires
        priors.len() > 0,
        s.schema_version == PUBLIC_PRIOR_SCHEMA_VERSION,
        s.entries@ == in_canonical_order(entries_of(priors)),
        entries_error(s.entries@, 0) is None,
        s.snapshot_id@ == content_of(s.entries@),
    ensures
        snapshot_error(s) is None,
{
    canonical_order_keeps_every_entry(entries_of(priors));
}

/// What is installed of the distributed priors.
#[derive(Debug, Clone, PartialEq, Eq)]
pub struct InstalledSnapshot {
    pub snapshot_id: String,
    pub installed_from: String,
}

/// Whether the bundled snapshot is installed when the database is opened.
pub open spec fn installs(installed: Option<InstalledSnapshot>, bundled_id: Seq<char>) -> bool {
    match installed {
        None => true,
        Some(current) => current.installed_from@ == "bundled"@ && current.snapshot_id@ != bundled_id,
    }
}

/// Whether the bundled snapshot is installed when the database is opened: where there is none, or where an
/// earlier bundled one is. A downloaded one stays.
pub fn open_database(installed: Option<&InstalledSnapshot>, bundled_id: &str) -> (r: bool)
    ensures
        r == installs(behind(installed), bundled_id@),
{
    match installed {
        None => true,
        Some(current) => same(current.installed_from.as_str(), "bundled") && !same(
            current.snapshot_id.as_str(),
            bundled_id,
        ),
    }
}

/// Whether `new` is what is installed once the database was opened.
pub open spec fn is_opened(
    new: InstalledSnapshot,
    installed: Option<InstalledSnapshot>,
    bundled_id: Seq<char>,
) -> bool {
    if installs(installed, bundled_id) {
        new.snapshot_id@ == bundled_id && new.installed_from@ == "bundled"@
    } else {
        installed == Some(new)
    }
}

/// What is installed once the database was opened.
pub fn opened(installed: Option<InstalledSnapshot>, bundled_id: &str) -> (r: InstalledSnapshot)
    ensures
        is_opened(r, installed, bundled_id@),
{
    if let Some(current) = installed {
        if !open_database(Some(&current), bundled_id) {
            return current;
        }
    }
    InstalledSnapshot {
        snapshot_id: bundled_id.to_owned(),
        installed_from: "bundled".to_owned(),
    }
}

/// Opening the database installs the bundled snapshot where there is none, renews an earlier bundled one,
/// and leaves what was installed from anywhere else. Opening it again changes nothing.
pub proof fn opening_twice_changes_nothing(
    installed: Option<InstalledSnapshot>,
    first: InstalledSnapshot,
    second: InstalledSnapshot,
    bundled_id: Seq<char>,
)
    requires
        is_opened(first, installed, bundled_id),
        is_opened(second, Some(first), bundled_id),
    ensures
        second == first,
        !installs(Some(first), bundled_id),
        installed is None ==> first.snapshot_id@ == bundled_id && first.installed_from@ == "bundled"@,
        installed is Some && installed->0.installed_from@ == "bundled"@ ==> first.snapshot_id@
            == bundled_id,
        installed is Some && installed->0.installed_from@ != "bundled"@ ==> first == installed->0,
{
}

/// What a refresh did.
#[derive(Debug, Clone, Copy, PartialEq, Eq, Structural)]
pub enum RefreshResult {
    Updated,
    Current,
}

/// What a refresh does with a downloaded snapshot: one that is installed already is left.
pub fn refresh(installed: Option<&InstalledSnapshot>, downloaded_id: &str) -> (r: RefreshResult)
    ensures
        r == (match installed {
            Some(current) => if current.snapshot_id@ == downloaded_id@ {
                RefreshResult::Current
            } else {
                RefreshResult::Updated
            },
            None => RefreshResult::Updated,
        }),
{
    match installed {
        Some(current) => if same(current.snapshot_id.as_str(), downloaded_id) {
            RefreshResult::Current
        } else {
            RefreshResult::Updated
        },
        None => RefreshResult::Updated,
    }
}

/// A valid snapshot counts no more successes than attempts, in every entry.
pub proof fn valid_entries_count_truthfully(s: PublicPriorSnapshotV1, from: int, i: int)
    requires
        entries_error(s.entries@, from) is None,
        0 <= from <= i < s.entries@.len(),
    ensures
        0 < s.entries@[i].attempts,
        s.entries@[i].successes <= s.entries@[i].attempts,
    decreases s.entries@.len() - from,
{
    if from < i {
        valid_entries_count_truthfully(s, from + 1, i);
    }
}

} // verus!
