//! The namespace mapping: from the pids that processes see inside their own
//! namespaces to host pids, built from each process's status text.
use vstd::prelude::*;
use vstd::string::*;
use std::collections::HashMap;

verus! {

broadcast use vstd::std_specs::hash::group_hash_axioms;

/// The pieces of a text between its `\n` characters (one more piece than
/// there are `\n`s).
pub open spec fn pieces(s: Seq<char>) -> Seq<Seq<char>>
    decreases s.len(),
{
    if s.len() == 0 {
        seq![Seq::empty()]
    } else {
        let p = pieces(s.drop_last());
        if s.last() == '\n' {
            p.push(Seq::empty())
        } else {
            p.update(p.len() - 1, p.last().push(s.last()))
        }
    }
}

/// A line without the `\r` that ended it, if any.
pub open spec fn strip_cr(l: Seq<char>) -> Seq<char> {
    if l.len() > 0 && l.last() == '\r' { l.drop_last() } else { l }
}

/// The lines of a text as `str::lines` gives them: split after each `\n`,
/// with no empty piece after a final `\n`; a line ended by `\n` loses that
/// `\n` and then one `\r` before it, an unended last line is kept as it is.
pub open spec fn lines_of(s: Seq<char>) -> Seq<Seq<char>> {
    let p = pieces(s);
    let n: int = if p.last().len() == 0 { p.len() - 1 } else { p.len() as int };
    Seq::new(n as nat, |i: int| if i < p.len() - 1 { strip_cr(p[i]) } else { p[i] })
}

/// What `str::trim` gives for a text.
pub uninterp spec fn trimmed(s: Seq<char>) -> Seq<char>;

/// What `str::split_whitespace` gives for a text.
pub uninterp spec fn words_of(s: Seq<char>) -> Seq<Seq<char>>;

pub open spec fn views(v: Seq<String>) -> Seq<Seq<char>> {
    v.map_values(|s: String| s@)
}

/// Relies on `str::lines` (`split_inclusive('\n')`, then `\n` and one
/// `\r` stripped from each piece): the lines of a text, in order.
#[verifier::external_body]
fn split_lines(s: &str) -> (r: Vec<String>)
    ensures
        views(r@) == lines_of(s@),
{
    s.lines().map(|l| l.to_string()).collect()
}

/// Relies on `str::trim`: the text without surrounding whitespace.
#[verifier::external_body]
fn trim(s: &str) -> (r: String)
    ensures
        r@ == trimmed(s@),
{
    s.trim().to_string()
}

/// Relies on `str::split_whitespace`: the words of a text, in order.
#[verifier::external_body]
fn split_words(s: &str) -> (r: Vec<String>)
    ensures
        views(r@) == words_of(s@),
{
    s.split_whitespace().map(|w| w.to_string()).collect()
}

// ---- numbers ----

pub open spec fn is_digit(c: char) -> bool {
    '0' <= c && c <= '9'
}

pub open spec fn all_digits(s: Seq<char>) -> bool {
    forall|i: int| 0 <= i < s.len() ==> is_digit(#[trigger] s[i])
}

/// The value of a string of decimal digits.
pub open spec fn digits_value(s: Seq<char>) -> nat
    decreases s.len(),
{
    if s.len() == 0 {
        0
    } else {
        digits_value(s.drop_last()) * 10 + ((s.last() as u32 - '0' as u32) as nat)
    }
}

/// The text without a leading `+`.
pub open spec fn unsigned_digits(s: Seq<char>) -> Seq<char> {
    if s.len() > 0 && s[0] == '+' { s.drop_first() } else { s }
}

/// A decimal `u32` as `str::parse` reads one: an optional `+`, then one or
/// more digits, with a value that fits.
pub open spec fn parse_u32_spec(s: Seq<char>) -> Option<u32> {
    let d = unsigned_digits(s);
    if d.len() > 0 && all_digits(d) && digits_value(d) <= u32::MAX {
        Some(digits_value(d) as u32)
    } else {
        None
    }
}

/// Reads a decimal `u32`.
pub fn parse_u32(s: &str) -> (r: Option<u32>)
    ensures
        r == parse_u32_spec(s@),
{
    let n = s.unicode_len();
    let mut start: usize = 0;
    if n > 0 && s.get_char(0) == '+' {
        start = 1;
    }
    let ghost d = unsigned_digits(s@);
    assert(d =~= s@.skip(start as int));
    if start >= n {
        return None;
    }
    let mut value: u64 = 0;
    let mut over = false;
    let mut i: usize = start;
    while i < n
        invariant
            start <= i <= n,
            n == s@.len(),
            d == s@.skip(start as int),
            d == unsigned_digits(s@),
            all_digits(d.take(i - start)),
            !over ==> value as nat == digits_value(d.take(i - start)) && value <= u32::MAX,
            over ==> digits_value(d.take(i - start)) > u32::MAX,
        decreases n - i,
    {
        let c = s.get_char(i);
        if !('0' <= c && c <= '9') {
            assert(d[i - start] == c);
            assert(!is_digit(d[i - start]));
            assert(!all_digits(d));
            assert(parse_u32_spec(s@) is None);
            return None;
        }
        let ghost prev = d.take(i - start);
        assert(d.take(i + 1 - start).drop_last() =~= prev);
        assert(d.take(i + 1 - start).last() == c);
        assert(all_digits(d.take(i + 1 - start))) by {
            assert forall|k: int| 0 <= k < d.take(i + 1 - start).len() implies is_digit(
                #[trigger] d.take(i + 1 - start)[k],
            ) by {
                if k < i - start {
                    assert(d.take(i + 1 - start)[k] == prev[k]);
                }
            }
        }
        let digit = (c as u32 - '0' as u32) as u64;
        if !over {
            value = value * 10 + digit;
            if value > 0xffff_ffff {
                over = true;
            }
        }
        i = i + 1;
    }
    assert(d.take(n - start) =~= d);
    if over {
        None
    } else {
        Some(value as u32)
    }
}

// ---- status text ----

/// The rest of `line` after `prefix`, when it starts with it.
pub open spec fn after_prefix(line: Seq<char>, prefix: Seq<char>) -> Option<Seq<char>> {
    if prefix.len() <= line.len() && line.take(prefix.len() as int) == prefix {
        Some(line.skip(prefix.len() as int))
    } else {
        None
    }
}

/// The rest of the first line that starts with `prefix`.
pub open spec fn first_field(lines: Seq<Seq<char>>, prefix: Seq<char>) -> Option<Seq<char>>
    decreases lines.len(),
{
    if lines.len() == 0 {
        None
    } else {
        match after_prefix(lines[0], prefix) {
            Some(rest) => Some(rest),
            None => first_field(lines.drop_first(), prefix),
        }
    }
}

fn strip_prefix(line: &str, prefix: &str) -> (r: Option<String>)
    ensures
        match r {
            Some(x) => after_prefix(line@, prefix@) == Some(x@),
            None => after_prefix(line@, prefix@) is None,
        },
{
    let n = line.unicode_len();
    let m = prefix.unicode_len();
    if m > n {
        return None;
    }
    let mut i: usize = 0;
    while i < m
        invariant
            m <= n,
            n == line@.len(),
            m == prefix@.len(),
            i <= m,
            line@.take(i as int) == prefix@.take(i as int),
        decreases m - i,
    {
        if line.get_char(i) != prefix.get_char(i) {
            assert(line@.take(m as int)[i as int] != prefix@[i as int]);
            return None;
        }
        assert(line@.take(i + 1) =~= line@.take(i as int).push(line@[i as int]));
        assert(prefix@.take(i + 1) =~= prefix@.take(i as int).push(prefix@[i as int]));
        i = i + 1;
    }
    assert(prefix@.take(m as int) =~= prefix@);
    Some(String::from_str(line.substring_char(m, n)))
}

fn find_field(lines: &Vec<String>, prefix: &str) -> (r: Option<String>)
    ensures
        match r {
            Some(x) => first_field(views(lines@), prefix@) == Some(x@),
            None => first_field(views(lines@), prefix@) is None,
        },
{
    let ghost all = views(lines@);
    assert(all.skip(0) =~= all);
    let mut i: usize = 0;
    while i < lines.len()
        invariant
            i <= lines@.len(),
            all == views(lines@),
            first_field(all, prefix@) == first_field(all.skip(i as int), prefix@),
        decreases lines@.len() - i,
    {
        assert(all.skip(i as int)[0] == lines@[i as int]@);
        assert(all.skip(i as int).drop_first() =~= all.skip(i + 1));
        match strip_prefix(lines[i].as_str(), prefix) {
            Some(rest) => {
                return Some(rest);
            },
            None => {},
        }
        i = i + 1;
    }
    assert(all.skip(i as int).len() == 0);
    None
}

/// The numbers among the words, in order.
pub open spec fn numbers_in(words: Seq<Seq<char>>) -> Seq<u32>
    decreases words.len(),
{
    if words.len() == 0 {
        Seq::empty()
    } else {
        let rest = numbers_in(words.drop_last());
        match parse_u32_spec(words.last()) {
            Some(v) => rest.push(v),
            None => rest,
        }
    }
}

/// The value of the first `Ngid:` line, when it holds a number.
pub open spec fn ngid_of(lines: Seq<Seq<char>>) -> Option<u32> {
    match first_field(lines, "Ngid:"@) {
        Some(rest) => parse_u32_spec(trimmed(rest)),
        None => None,
    }
}

/// The numbers of the first `NStgid:` line.
pub open spec fn nstgids_of(lines: Seq<Seq<char>>) -> Seq<u32> {
    match first_field(lines, "NStgid:"@) {
        Some(rest) => numbers_in(words_of(rest)),
        None => Seq::empty(),
    }
}

/// Reads the namespace group id and the namespace thread-group ids from a
/// process's status text.
pub fn parse_status(status: &str) -> (r: (Option<u32>, Vec<u32>))
    ensures
        r.0 == ngid_of(lines_of(status@)),
        r.1@ == nstgids_of(lines_of(status@)),
{
    let lines = split_lines(status);
    let ngid = match find_field(&lines, "Ngid:") {
        Some(rest) => {
            let t = trim(rest.as_str());
            parse_u32(t.as_str())
        },
        None => None,
    };
    let mut ids: Vec<u32> = Vec::new();
    match find_field(&lines, "NStgid:") {
        Some(rest) => {
            let words = split_words(rest.as_str());
            let mut i: usize = 0;
            while i < words.len()
                invariant
                    i <= words@.len(),
                    ids@ == numbers_in(views(words@).take(i as int)),
                decreases words@.len() - i,
            {
                assert(views(words@).take(i + 1).drop_last() =~= views(words@).take(i as int));
                match parse_u32(words[i].as_str()) {
                    Some(v) => ids.push(v),
                    None => {},
                }
                i = i + 1;
            }
            assert(views(words@).take(i as int) =~= views(words@));
        },
        None => {},
    }
    (ngid, ids)
}

// ---- the mapping ----

/// One entry of the process table: its name (a host pid, for a process)
/// and its status text.
#[derive(Debug, Clone)]
pub struct ProcEntry {
    pub name: String,
    pub status: String,
}

/// Maps each of `ids` to `host`, in order.
pub open spec fn insert_all(m: Map<u32, u32>, ids: Seq<u32>, host: u32) -> Map<u32, u32>
    decreases ids.len(),
{
    if ids.len() == 0 {
        m
    } else {
        insert_all(m, ids.drop_last(), host).insert(ids.last(), host)
    }
}

/// One entry's part of the mapping: its namespace group id (unless 0) and
/// each namespace thread-group id go to the entry's host pid. An entry whose
/// name is not a pid adds nothing.
pub open spec fn add_entry(m: Map<u32, u32>, name: Seq<char>, status: Seq<char>) -> Map<u32, u32> {
    match parse_u32_spec(name) {
        None => m,
        Some(host) => {
            let lines = lines_of(status);
            let with_group = match ngid_of(lines) {
                Some(g) => if g != 0 { m.insert(g, host) } else { m },
                None => m,
            };
            insert_all(with_group, nstgids_of(lines), host)
        },
    }
}

/// The mapping built from the entries in order, later entries winning.
pub open spec fn mapping_from(m: Map<u32, u32>, entries: Seq<ProcEntry>) -> Map<u32, u32>
    decreases entries.len(),
{
    if entries.len() == 0 {
        m
    } else {
        let e = entries.last();
        add_entry(mapping_from(m, entries.drop_last()), e.name@, e.status@)
    }
}

pub open spec fn mapping_of(entries: Seq<ProcEntry>) -> Map<u32, u32> {
    mapping_from(Map::empty(), entries)
}

/// A build-once, read-only mapping from namespace pids to host pids.
pub struct NamespaceMap {
    map: HashMap<u32, u32>,
}

impl View for NamespaceMap {
    type V = Map<u32, u32>;

    closed spec fn view(&self) -> Map<u32, u32> {
        self.map@
    }
}

impl NamespaceMap {
    /// A mapping with no entry, for a host without a process table.
    pub fn empty() -> (r: NamespaceMap)
        ensures
            r@ == Map::<u32, u32>::empty(),
    {
        NamespaceMap { map: HashMap::new() }
    }

    /// Builds the mapping from a snapshot of the process table.
    pub fn build(entries: &Vec<ProcEntry>) -> (r: NamespaceMap)
        ensures
            r@ == mapping_of(entries@),
    {
        let mut map: HashMap<u32, u32> = HashMap::new();
        let mut i: usize = 0;
        while i < entries.len()
            invariant
                i <= entries@.len(),
                map@ == mapping_of(entries@.take(i as int)),
            decreases entries@.len() - i,
        {
            proof {
                assert(entries@.take(i + 1).drop_last() =~= entries@.take(i as int));
            }
            let e = &entries[i];
            match parse_u32(e.name.as_str()) {
                None => {},
                Some(host) => {
                    let (ngid, ids) = parse_status(e.status.as_str());
                    match ngid {
                        Some(g) => if g != 0 {
                            map.insert(g, host);
                        },
                        None => {},
                    }
                    let ghost base = map@;
                    let mut k: usize = 0;
                    while k < ids.len()
                        invariant
                            k <= ids@.len(),
                            map@ == insert_all(base, ids@.take(k as int), host),
                        decreases ids@.len() - k,
                    {
                        proof {
                            assert(ids@.take(k + 1).drop_last() =~= ids@.take(k as int));
                        }
                        map.insert(ids[k], host);
                        k = k + 1;
                    }
                    proof {
                        assert(ids@.take(k as int) =~= ids@);
                    }
                },
            }
            i = i + 1;
        }
        proof {
            assert(entries@.take(i as int) =~= entries@);
        }
        NamespaceMap { map }
    }

    /// The host pid that `pid` stands for, if the mapping has it.
    pub fn get(&self, pid: u32) -> (r: Option<u32>)
        ensures
            r == (if self@.contains_key(pid) { Some(self@[pid]) } else { None::<u32> }),
    {
        match self.map.get(&pid) {
            Some(v) => Some(*v),
            None => None,
        }
    }
}

// ---- laws ----

proof fn lemma_insert_all_over(m: Map<u32, u32>, x: Map<u32, u32>, ids: Seq<u32>, host: u32)
    ensures
        insert_all(m.union_prefer_right(x), ids, host) == m.union_prefer_right(
            insert_all(x, ids, host),
        ),
    decreases ids.len(),
{
    if ids.len() > 0 {
        lemma_insert_all_over(m, x, ids.drop_last(), host);
        assert(insert_all(m.union_prefer_right(x), ids, host) =~= m.union_prefer_right(
            insert_all(x, ids, host),
        ));
    }
}

proof fn lemma_add_entry_over(m: Map<u32, u32>, x: Map<u32, u32>, name: Seq<char>, status: Seq<char>)
    ensures
        add_entry(m.union_prefer_right(x), name, status) == m.union_prefer_right(
            add_entry(x, name, status),
        ),
{
    match parse_u32_spec(name) {
        None => {},
        Some(host) => {
            let lines = lines_of(status);
            let xg = match ngid_of(lines) {
                Some(g) => if g != 0 { x.insert(g, host) } else { x },
                None => x,
            };
            let mg = match ngid_of(lines) {
                Some(g) => if g != 0 { m.union_prefer_right(x).insert(g, host) } else { m.union_prefer_right(x) },
                None => m.union_prefer_right(x),
            };
            assert(mg =~= m.union_prefer_right(xg));
            lemma_insert_all_over(m, xg, nstgids_of(lines), host);
        },
    }
}

/// Building onto a map `m` gives `m` overridden by the mapping of the entries.
pub proof fn lemma_mapping_from(m: Map<u32, u32>, entries: Seq<ProcEntry>)
    ensures
        mapping_from(m, entries) == m.union_prefer_right(mapping_of(entries)),
    decreases entries.len(),
{
    if entries.len() == 0 {
        assert(m.union_prefer_right(Map::empty()) =~= m);
    } else {
        let e = entries.last();
        let rest = entries.drop_last();
        lemma_mapping_from(m, rest);
        lemma_add_entry_over(m, mapping_of(rest), e.name@, e.status@);
    }
}

/// Building the mapping is idempotent: building it again from the same
/// snapshot, on top of the mapping already built, changes nothing, and two
/// builds from one snapshot agree.
pub proof fn lemma_mapping_idempotent(entries: Seq<ProcEntry>)
    ensures
        mapping_from(mapping_of(entries), entries) == mapping_of(entries),
{
    lemma_mapping_from(mapping_of(entries), entries);
    assert(mapping_of(entries).union_prefer_right(mapping_of(entries)) =~= mapping_of(entries));
}

/// Some entry is named by the pid `v`.
pub open spec fn names_pid(entries: Seq<ProcEntry>, v: u32) -> bool {
    exists|i: int| 0 <= i < entries.len() && parse_u32_spec(#[trigger] entries[i].name@) == Some(v)
}

proof fn lemma_insert_all_values(m: Map<u32, u32>, ids: Seq<u32>, host: u32, k: u32)
    requires
        insert_all(m, ids, host).contains_key(k),
    ensures
        insert_all(m, ids, host)[k] == host || (m.contains_key(k) && insert_all(m, ids, host)[k]
            == m[k]),
        !ids.contains(k) ==> m.contains_key(k),
    decreases ids.len(),
{
    if ids.len() > 0 {
        if k != ids.last() {
            lemma_insert_all_values(m, ids.drop_last(), host, k);
            if !ids.contains(k) {
                assert(!ids.drop_last().contains(k)) by {
                    if ids.drop_last().contains(k) {
                        let j = choose|j: int| 0 <= j < ids.drop_last().len() && ids.drop_last()[j] == k;
                        assert(ids[j] == k);
                    }
                }
            }
        } else {
            assert(ids[ids.len() - 1] == k);
        }
    }
}

/// Soundness of the mapping: every host pid it gives is the name of an
/// entry of the process table.
pub proof fn lemma_mapping_sound(entries: Seq<ProcEntry>, k: u32)
    requires
        mapping_of(entries).contains_key(k),
    ensures
        names_pid(entries, mapping_of(entries)[k]),
    decreases entries.len(),
{
    let rest = entries.drop_last();
    let e = entries.last();
    let m = mapping_of(rest);
    match parse_u32_spec(e.name@) {
        None => {
            lemma_mapping_sound(rest, k);
            let i = choose|i: int| 0 <= i < rest.len() && parse_u32_spec(#[trigger] rest[i].name@) == Some(m[k]);
            assert(entries[i] == rest[i]);
        },
        Some(host) => {
            let lines = lines_of(e.status@);
            let g = match ngid_of(lines) {
                Some(g) => if g != 0 { m.insert(g, host) } else { m },
                None => m,
            };
            lemma_insert_all_values(g, nstgids_of(lines), host, k);
            if mapping_of(entries)[k] == host {
                assert(parse_u32_spec(entries[entries.len() - 1].name@) == Some(host));
            } else {
                assert(g.contains_key(k) && g[k] == mapping_of(entries)[k]);
                assert(m.contains_key(k) && m[k] == g[k]);
                lemma_mapping_sound(rest, k);
                let i = choose|i: int| 0 <= i < rest.len() && parse_u32_spec(#[trigger] rest[i].name@) == Some(m[k]);
                assert(entries[i] == rest[i]);
            }
        },
    }
}

/// The sentinel 0 of the namespace group id is never mapped: 0 is a key
/// only when some entry lists it among its namespace thread-group ids.
pub proof fn lemma_zero_not_mapped(entries: Seq<ProcEntry>)
    requires
        forall|i: int| 0 <= i < entries.len() ==> !nstgids_of(lines_of(#[trigger] entries[i].status@)).contains(0),
    ensures
        !mapping_of(entries).contains_key(0),
    decreases entries.len(),
{
    if entries.len() > 0 {
        let rest = entries.drop_last();
        let e = entries.last();
        assert forall|i: int| 0 <= i < rest.len() implies !nstgids_of(lines_of(#[trigger] rest[i].status@)).contains(0) by {
            assert(rest[i] == entries[i]);
        }
        lemma_zero_not_mapped(rest);
        let m = mapping_of(rest);
        match parse_u32_spec(e.name@) {
            None => {},
            Some(host) => {
                let lines = lines_of(e.status@);
                let g = match ngid_of(lines) {
                    Some(g) => if g != 0 { m.insert(g, host) } else { m },
                    None => m,
                };
                assert(entries[entries.len() - 1] == e);
                if insert_all(g, nstgids_of(lines), host).contains_key(0) {
                    lemma_insert_all_values(g, nstgids_of(lines), host, 0);
                }
            },
        }
    }
}

} // verus!
