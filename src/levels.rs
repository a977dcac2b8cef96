use vstd::prelude::*;
use vstd::string::StringExecFns;
use crate::text::{decimal, decimal_string};

verus! {

/// Lowest acoustic-management value a level may name.
pub const MIN_LEVEL: u8 = 128;
/// Highest acoustic-management value a level may name.
pub const MAX_LEVEL: u8 = 254;
/// Value of the built-in level "loud".
pub const LOUD_LEVEL: u8 = 254;
/// Value of the built-in level "quiet".
pub const QUIET_LEVEL: u8 = 128;

/// Whether `v` is a value the drive tool accepts as a loudness level.
pub open spec fn in_range(v: int) -> bool {
    MIN_LEVEL <= v <= MAX_LEVEL
}

/// The value that `name` maps to in `t`; a later entry overrides an earlier one.
pub open spec fn level_of(t: Seq<(Seq<char>, int)>, name: Seq<char>) -> Option<int>
    decreases t.len(),
{
    if t.len() == 0 {
        None
    } else if t.last().0 == name {
        Some(t.last().1)
    } else {
        level_of(t.drop_last(), name)
    }
}

/// The level that the two built-in names stand for when nothing overrides them.
pub open spec fn builtin_level(name: Seq<char>) -> Option<int> {
    if name == "loud"@ {
        Some(LOUD_LEVEL as int)
    } else if name == "quiet"@ {
        Some(QUIET_LEVEL as int)
    } else {
        None
    }
}

/// The level of `name` once the built-in names are merged under `t`.
pub open spec fn merged_level(t: Seq<(Seq<char>, int)>, name: Seq<char>) -> Option<int> {
    match level_of(t, name) {
        Some(v) => Some(v),
        None => builtin_level(name),
    }
}

/// Whether no name occurs twice in `t`.
pub open spec fn names_unique(t: Seq<(Seq<char>, int)>) -> bool {
    forall|i: int, j: int| 0 <= i < t.len() && 0 <= j < t.len() && i != j ==> t[i].0 != t[j].0
}

/// Whether every value of `t` is in range.
pub open spec fn all_in_range(t: Seq<(Seq<char>, int)>) -> bool {
    forall|i: int| 0 <= i < t.len() ==> in_range(#[trigger] t[i].1)
}

/// Whether entry `i` of `t` is the first whose value is out of range.
pub open spec fn first_invalid(t: Seq<(Seq<char>, int)>, i: int) -> bool {
    &&& 0 <= i < t.len()
    &&& !in_range(t[i].1)
    &&& forall|j: int| 0 <= j < i ==> in_range(#[trigger] t[j].1)
}

/// The line that lists entry `e`: its name, " = ", and its value in decimal.
pub open spec fn listing_line(e: (Seq<char>, int)) -> Seq<char> {
    e.0 + " = "@ + decimal(e.1 as nat)
}

/// The mathematical content of a list of named levels.
pub open spec fn entries_view(v: Seq<(String, u8)>) -> Seq<(Seq<char>, int)> {
    v.map_values(|e: (String, u8)| (e.0@, e.1 as int))
}

/// The mathematical content of a list of named levels as a configuration file gives them.
pub open spec fn raw_view(v: Seq<(String, i64)>) -> Seq<(Seq<char>, int)> {
    v.map_values(|e: (String, i64)| (e.0@, e.1 as int))
}

/// Appending an entry makes it the answer for its own name only.
proof fn lemma_level_of_push(t: Seq<(Seq<char>, int)>, e: (Seq<char>, int), name: Seq<char>)
    ensures
        level_of(t.push(e), name) == if e.0 == name { Some(e.1) } else { level_of(t, name) },
{
    assert(t.push(e).drop_last() =~= t);
}

/// With unique names, every entry is the answer for its name.
proof fn lemma_level_of_at(t: Seq<(Seq<char>, int)>, k: int)
    requires
        names_unique(t),
        0 <= k < t.len(),
    ensures
        level_of(t, t[k].0) == Some(t[k].1),
    decreases t.len(),
{
    if k != t.len() - 1 {
        let d = t.drop_last();
        assert(d[k] == t[k]);
        lemma_level_of_at(d, k);
    }
}

/// A name that no entry holds has no level.
proof fn lemma_level_of_absent(t: Seq<(Seq<char>, int)>, name: Seq<char>)
    requires
        forall|i: int| 0 <= i < t.len() ==> (#[trigger] t[i]).0 != name,
    ensures
        level_of(t, name) is None,
    decreases t.len(),
{
    if t.len() > 0 {
        let d = t.drop_last();
        assert forall|i: int| 0 <= i < d.len() implies (#[trigger] d[i]).0 != name by {
            assert(d[i] == t[i]);
        }
        lemma_level_of_absent(d, name);
    }
}

/// Replacing an entry of another name leaves a name's level as it was.
proof fn lemma_level_of_update(
    t: Seq<(Seq<char>, int)>,
    k: int,
    e: (Seq<char>, int),
    name: Seq<char>,
)
    requires
        0 <= k < t.len(),
        t[k].0 != name,
        e.0 != name,
    ensures
        level_of(t.update(k, e), name) == level_of(t, name),
    decreases t.len(),
{
    let u = t.update(k, e);
    if k == t.len() - 1 {
        assert(u.drop_last() =~= t.drop_last());
    } else {
        assert(u.drop_last() =~= t.drop_last().update(k, e));
        lemma_level_of_update(t.drop_last(), k, e, name);
    }
}

/// If some entry of `t` names `name`, `level_of` gives the value of one such entry.
proof fn lemma_level_of_found(t: Seq<(Seq<char>, int)>, name: Seq<char>)
    ensures
        level_of(t, name) matches Some(v) ==> exists|i: int|
            0 <= i < t.len() && (#[trigger] t[i]).0 == name && t[i].1 == v,
    decreases t.len(),
{
    if t.len() > 0 && t.last().0 != name {
        let d = t.drop_last();
        lemma_level_of_found(d, name);
        if let Some(v) = level_of(d, name) {
            let i: int = choose|i: int| 0 <= i < d.len() && (#[trigger] d[i]).0 == name && d[i].1 == v;
            assert(t[i] == d[i]);
        }
    } else if t.len() > 0 {
        assert(t[t.len() - 1] == t.last());
    }
}


/// The two built-in names are different names.
proof fn lemma_builtin_names_differ()
    ensures
        "loud"@ != "quiet"@,
{
    reveal_strlit("loud");
    reveal_strlit("quiet");
    assert("loud"@[0] != "quiet"@[0]);
}

/// Whatever a table holds, once its values are in range, a name resolves to a value
/// in range or to nothing.
pub proof fn lemma_resolved_level_in_range(t: Seq<(Seq<char>, int)>, name: Seq<char>)
    requires
        all_in_range(t),
    ensures
        merged_level(t, name) matches Some(v) ==> in_range(v),
{
    lemma_level_of_found(t, name);
    if let Some(v) = level_of(t, name) {
        let i: int = choose|i: int| 0 <= i < t.len() && (#[trigger] t[i]).0 == name && t[i].1 == v;
        assert(in_range(t[i].1));
    }
}

/// "loud" and "quiet" always resolve, whatever the configured levels; where the
/// configuration does not name them they resolve to 254 and 128.
pub proof fn lemma_builtins_resolve(t: Seq<(Seq<char>, int)>)
    ensures
        merged_level(t, "loud"@) is Some,
        merged_level(t, "quiet"@) is Some,
        level_of(t, "loud"@) is None ==> merged_level(t, "loud"@) == Some(LOUD_LEVEL as int),
        level_of(t, "quiet"@) is None ==> merged_level(t, "quiet"@) == Some(QUIET_LEVEL as int),
        t.len() == 0 ==> merged_level(t, "loud"@) == Some(254int) && merged_level(t, "quiet"@)
            == Some(128int),
{
    lemma_builtin_names_differ();
}

/// A level in the configuration whose value lies outside the accepted range.
#[derive(Debug, PartialEq, Eq)]
pub struct InvalidLevel {
    pub name: String,
    pub value: i64,
}

/// A requested level name that neither the table nor the built-in names know.
#[derive(Debug, PartialEq, Eq)]
pub struct NoSuchLevel {
    pub name: String,
}

/// Checks every configured level against the accepted range; the first one out of
/// range, in the order given, is reported.
pub fn validate_levels(raw: &Vec<(String, i64)>) -> (r: Result<(), InvalidLevel>)
    ensures
        r is Ok <==> all_in_range(raw_view(raw@)),
        r matches Err(e) ==> exists|i: int|
            first_invalid(raw_view(raw@), i) && e.name@ == raw@[i].0@ && e.value == raw@[i].1,
{
    let ghost t = raw_view(raw@);
    let mut i: usize = 0;
    while i < raw.len()
        invariant
            i <= raw.len(),
            t == raw_view(raw@),
            forall|j: int| 0 <= j < i ==> in_range(#[trigger] t[j].1),
        decreases raw.len() - i,
    {
        let value: i64 = raw[i].1;
        if value < MIN_LEVEL as i64 || value > MAX_LEVEL as i64 {
            assert(first_invalid(t, i as int));
            return Err(InvalidLevel { name: raw[i].0.clone(), value });
        }
        i += 1;
    }
    Ok(())
}

/// The named loudness levels in effect for a run: each name once, each value in range.
pub struct LevelTable {
    entries: Vec<(String, u8)>,
}

impl View for LevelTable {
    type V = Seq<(Seq<char>, int)>;

    closed spec fn view(&self) -> Seq<(Seq<char>, int)> {
        entries_view(self.entries@)
    }
}

impl LevelTable {
    pub open spec fn wf(&self) -> bool {
        names_unique(self@) && all_in_range(self@)
    }

    /// A table holding nothing.
    pub fn new() -> (r: LevelTable)
        ensures
            r.wf(),
            r@.len() == 0,
    {
        LevelTable { entries: Vec::new() }
    }

    /// The table a configuration without levels gets: loud = 254, quiet = 128.
    pub fn defaults() -> (r: LevelTable)
        ensures
            r.wf(),
            r@ == seq![("loud"@, LOUD_LEVEL as int), ("quiet"@, QUIET_LEVEL as int)],
    {
        let mut t = LevelTable::new();
        proof {
            lemma_builtin_names_differ();
        }
        t.set_default(String::from_str("loud"), LOUD_LEVEL);
        let ghost t1 = t@;
        assert(level_of(t1, "quiet"@) is None) by {
            assert(t1.drop_last().len() == 0);
        }
        t.set_default(String::from_str("quiet"), QUIET_LEVEL);
        assert(t@ =~= seq![("loud"@, LOUD_LEVEL as int), ("quiet"@, QUIET_LEVEL as int)]);
        t
    }

    /// Number of levels in the table.
    pub fn len(&self) -> (r: usize)
        ensures
            r == self@.len(),
    {
        self.entries.len()
    }

    /// The name and value of the entry at `i`, in listing order.
    pub fn entry(&self, i: usize) -> (r: (&String, u8))
        requires
            i < self@.len(),
        ensures
            r.0@ == self@[i as int].0,
            r.1 as int == self@[i as int].1,
    {
        (&self.entries[i].0, self.entries[i].1)
    }

    fn find(&self, name: &String) -> (r: Option<usize>)
        ensures
            r matches Some(k) ==> k < self@.len() && self@[k as int].0 == name@,
            r is None ==> forall|i: int| 0 <= i < self@.len() ==> (#[trigger] self@[i]).0 != name@,
    {
        let mut i: usize = 0;
        while i < self.entries.len()
            invariant
                i <= self.entries@.len(),
                forall|j: int| 0 <= j < i ==> (#[trigger] self@[j]).0 != name@,
            decreases self.entries@.len() - i,
        {
            if self.entries[i].0 == *name {
                return Some(i);
            }
            i += 1;
        }
        None
    }

    /// Looks `name` up, matching it exactly (case included).
    pub fn lookup(&self, name: &String) -> (r: Option<u8>)
        requires
            self.wf(),
        ensures
            r matches Some(v) ==> level_of(self@, name@) == Some(v as int),
            r is None ==> level_of(self@, name@) is None,
    {
        match self.find(name) {
            Some(k) => {
                proof { lemma_level_of_at(self@, k as int); }
                Some(self.entries[k].1)
            },
            None => {
                proof { lemma_level_of_absent(self@, name@); }
                None
            },
        }
    }

    /// Maps `name` to `value`, replacing what it mapped to before.
    pub fn set(&mut self, name: String, value: u8)
        requires
            old(self).wf(),
            in_range(value as int),
        ensures
            final(self).wf(),
            forall|n: Seq<char>| #[trigger] level_of(final(self)@, n)
                == if n == name@ { Some(value as int) } else { level_of(old(self)@, n) },
            level_of(old(self)@, name@) is None ==> final(self)@ == old(self)@.push((name@, value as int)),
            level_of(old(self)@, name@) is Some ==> final(self)@.len() == old(self)@.len(),
    {
        let ghost t = self@;
        let ghost e = (name@, value as int);
        match self.find(&name) {
            Some(k) => {
                self.entries.set(k, (name, value));
                proof {
                    assert(self@ =~= t.update(k as int, e));
                    lemma_level_of_at(t, k as int);
                    lemma_level_of_at(self@, k as int);
                    assert forall|n: Seq<char>| #[trigger] level_of(self@, n)
                        == if n == e.0 { Some(e.1) } else { level_of(t, n) } by {
                        if n != e.0 {
                            lemma_level_of_update(t, k as int, e, n);
                        }
                    }
                }
            },
            None => {
                self.entries.push((name, value));
                proof {
                    lemma_level_of_absent(t, e.0);
                    assert(self@ =~= t.push(e));
                    assert forall|n: Seq<char>| #[trigger] level_of(self@, n)
                        == if n == e.0 { Some(e.1) } else { level_of(t, n) } by {
                        lemma_level_of_push(t, e, n);
                    }
                }
            },
        }
    }

    /// Maps `name` to `value` unless the table already has `name`.
    pub fn set_default(&mut self, name: String, value: u8)
        requires
            old(self).wf(),
            in_range(value as int),
        ensures
            final(self).wf(),
            forall|n: Seq<char>| #[trigger] level_of(final(self)@, n) == if n == name@ && level_of(
                old(self)@,
                n,
            ) is None {
                Some(value as int)
            } else {
                level_of(old(self)@, n)
            },
            level_of(old(self)@, name@) is None ==> final(self)@ == old(self)@.push((name@, value as int)),
            level_of(old(self)@, name@) is Some ==> final(self)@ == old(self)@,
    {
        if self.lookup(&name).is_none() {
            self.set(name, value);
        }
    }

    /// The table for a configuration's levels: the configured entries in the order
    /// given (a repeated name keeps its last value), then "loud" and "quiet" where
    /// the configuration does not name them. Every configured value must be in range.
    pub fn from_config(raw: &Vec<(String, i64)>) -> (r: Result<LevelTable, InvalidLevel>)
        ensures
            r is Ok <==> all_in_range(raw_view(raw@)),
            r matches Err(e) ==> exists|i: int|
                first_invalid(raw_view(raw@), i) && e.name@ == raw@[i].0@ && e.value == raw@[i].1,
            r matches Ok(t) ==> t.wf() && forall|n: Seq<char>| #[trigger] level_of(t@, n)
                == merged_level(raw_view(raw@), n),
    {
        match validate_levels(raw) {
            Err(e) => {
                return Err(e);
            },
            Ok(()) => {},
        }
        let ghost rv = raw_view(raw@);
        let mut t = LevelTable::new();
        let mut i: usize = 0;
        while i < raw.len()
            invariant
                i <= raw.len(),
                rv == raw_view(raw@),
                all_in_range(rv),
                t.wf(),
                forall|n: Seq<char>| #[trigger] level_of(t@, n) == level_of(rv.take(i as int), n),
            decreases raw.len() - i,
        {
            let ghost before = t@;
            assert(in_range(rv[i as int].1));
            t.set(raw[i].0.clone(), raw[i].1 as u8);
            proof {
                assert(rv.take(i + 1) =~= rv.take(i as int).push(rv[i as int]));
                assert forall|n: Seq<char>| #[trigger] level_of(t@, n) == level_of(
                    rv.take(i + 1),
                    n,
                ) by {
                    lemma_level_of_push(rv.take(i as int), rv[i as int], n);
                }
            }
            i += 1;
        }
        assert(rv.take(raw@.len() as int) =~= rv);
        t.set_default(String::from_str("loud"), LOUD_LEVEL);
        t.set_default(String::from_str("quiet"), QUIET_LEVEL);
        proof {
            lemma_builtin_names_differ();
        }
        Ok(t)
    }

    /// The value of a requested level: the table's entry, else the built-in value
    /// of "loud" or "quiet", else an error naming the request.
    pub fn translate(&self, name: &String) -> (r: Result<u8, NoSuchLevel>)
        requires
            self.wf(),
        ensures
            r matches Ok(v) ==> merged_level(self@, name@) == Some(v as int),
            r matches Err(e) ==> merged_level(self@, name@) is None && e.name@ == name@,
    {
        match self.lookup(name) {
            Some(v) => Ok(v),
            None => {
                proof {
                    reveal_strlit("loud");
                    reveal_strlit("quiet");
                }
                if *name == String::from_str("loud") {
                    Ok(LOUD_LEVEL)
                } else if *name == String::from_str("quiet") {
                    Ok(QUIET_LEVEL)
                } else {
                    Err(NoSuchLevel { name: name.clone() })
                }
            },
        }
    }

    /// The listing of the table, one `name = value` line per entry, in table order.
    pub fn list_lines(&self) -> (r: Vec<String>)
        ensures
            r@.len() == self@.len(),
            forall|i: int| 0 <= i < r@.len() ==> #[trigger] r@[i]@ == listing_line(self@[i]),
    {
        let mut r: Vec<String> = Vec::new();
        let mut i: usize = 0;
        while i < self.entries.len()
            invariant
                i <= self.entries@.len(),
                r@.len() == i,
                forall|j: int| 0 <= j < i ==> #[trigger] r@[j]@ == listing_line(self@[j]),
            decreases self.entries@.len() - i,
        {
            let mut line = self.entries[i].0.clone();
            line.append(" = ");
            let digits = decimal_string(self.entries[i].1);
            line.append(digits.as_str());
            proof { reveal_strlit(" = "); }
            r.push(line);
            i += 1;
        }
        r
    }
}

} // verus!
