//! Sync pairs and their configuration: the two places pairs are kept (a
//! local file in the working directory and a global one in the home
//! directory), how the two lists are merged with local pairs shadowing
//! global ones of the same name, the lookup of a pair by name, and the
//! addition and removal of pairs.
use vstd::prelude::*;
use vstd::string::*;

verus! {

broadcast use vstd::string::group_string_axioms;

/// A local directory and the remote target it is synchronised with.
#[derive(Debug, PartialEq)]
pub struct Pair {
    pub name: String,
    pub local: String,
    pub remote: String,
}

/// The content of a configuration file: its pairs.
#[derive(Debug)]
pub struct PairsConfig {
    pub pairs: Vec<Pair>,
}

/// The configuration file a pair comes from.
#[derive(Debug, Clone, Copy, PartialEq, Eq, Structural)]
pub enum PairSource {
    Global,
    Local,
}

/// A pair with the file it comes from, and whether a local pair of the same
/// name hides it.
#[derive(Debug)]
pub struct TaggedPair {
    pub pair: Pair,
    pub source: PairSource,
    pub shadowed: bool,
}

/// Why a pair could not be added or removed.
#[derive(Debug)]
pub enum ConfigError {
    /// A pair of that name is already in the file.
    AlreadyExists { name: String, source: PairSource },
    /// No pair of that name is in the file.
    NotFound { name: String, source: PairSource },
}

/// What to do with a configuration file once a pair is removed from its
/// list: delete the file when no pair is left, else write the rest.
#[derive(Debug)]
pub enum RemoveOutcome {
    DeleteFile,
    Save(Vec<Pair>),
}

/// The word used for a configuration file in messages.
pub open spec fn scope_word(source: PairSource) -> Seq<char> {
    match source {
        PairSource::Local => "local"@,
        PairSource::Global => "global"@,
    }
}

/// The names of a list of pairs.
pub open spec fn pair_names(pairs: Seq<Pair>) -> Seq<Seq<char>> {
    pairs.map_values(|p: Pair| p.name@)
}

/// A local pair, never shadowed.
pub open spec fn local_tag(p: Pair) -> TaggedPair {
    TaggedPair { pair: p, source: PairSource::Local, shadowed: false }
}

/// A global pair, shadowed when a local pair has its name.
pub open spec fn global_tag(p: Pair, local_names: Seq<Seq<char>>) -> TaggedPair {
    TaggedPair { pair: p, source: PairSource::Global, shadowed: local_names.contains(p.name@) }
}

/// All pairs: the local ones first, then the global ones, in file order.
pub open spec fn merged_pairs(local: Seq<Pair>, global: Seq<Pair>) -> Seq<TaggedPair> {
    local.map_values(|p: Pair| local_tag(p)) + global.map_values(
        |p: Pair| global_tag(p, pair_names(local)),
    )
}

/// A tagged pair that a lookup by `name` accepts: it has the name and, when
/// `unshadowed_only` is set, is not shadowed.
pub open spec fn lookup_accepts(tp: TaggedPair, name: Seq<char>, unshadowed_only: bool) -> bool {
    tp.pair.name@ == name && (unshadowed_only ==> !tp.shadowed)
}

/// The index of the first pair that a lookup accepts, or -1.
pub open spec fn first_accepted(all: Seq<TaggedPair>, name: Seq<char>, unshadowed_only: bool) -> int
    decreases all.len(),
{
    if all.len() == 0 {
        -1
    } else if lookup_accepts(all[0], name, unshadowed_only) {
        0
    } else {
        let r = first_accepted(all.drop_first(), name, unshadowed_only);
        if r >= 0 {
            r + 1
        } else {
            -1
        }
    }
}

/// The pair a lookup by name finds: the first unshadowed pair of that name,
/// else the first of that name.
pub open spec fn lookup(all: Seq<TaggedPair>, name: Seq<char>) -> Option<TaggedPair> {
    let k = first_accepted(all, name, true);
    let j = first_accepted(all, name, false);
    if k >= 0 {
        Some(all[k])
    } else if j >= 0 {
        Some(all[j])
    } else {
        None
    }
}

/// The pairs whose name is not `name`, in order.
pub open spec fn without_name(pairs: Seq<Pair>, name: Seq<char>) -> Seq<Pair> {
    pairs.filter(|p: Pair| p.name@ != name)
}

/// The message shown for a configuration error.
pub open spec fn config_error_message(e: ConfigError) -> Seq<char> {
    match e {
        ConfigError::AlreadyExists { name, source } => "pair '"@ + name@ + "' already exists in "@
            + scope_word(source) + " config"@,
        ConfigError::NotFound { name, source } => "pair '"@ + name@ + "' not found in "@
            + scope_word(source) + " config"@,
    }
}

/// `base` joined with a relative path: with a `/` between them unless
/// `base` is empty or already ends in `/`.
pub open spec fn path_join(base: Seq<char>, rel: Seq<char>) -> Seq<char> {
    if base.len() == 0 {
        rel
    } else if base.last() == '/' {
        base + rel
    } else {
        base + "/"@ + rel
    }
}

/// The path of the global configuration file for a home directory, or for
/// `/tmp` when none is known.
pub open spec fn global_path_spec(home: Option<String>) -> Seq<char> {
    path_join(
        match home {
            Some(h) => h@,
            None => "/tmp"@,
        },
        ".config/crabsync/crabsync.toml"@,
    )
}

impl Pair {
    /// A copy of the pair.
    pub fn copy(&self) -> (r: Pair)
        ensures
            r == *self,
    {
        Pair { name: self.name.clone(), local: self.local.clone(), remote: self.remote.clone() }
    }
}

impl TaggedPair {
    /// A copy of the tagged pair.
    pub fn copy(&self) -> (r: TaggedPair)
        ensures
            r == *self,
    {
        TaggedPair { pair: self.pair.copy(), source: self.source, shadowed: self.shadowed }
    }
}

impl ConfigError {
    /// The message shown for the error.
    pub fn message(&self) -> (r: String)
        ensures
            r@ == config_error_message(*self),
    {
        match self {
            ConfigError::AlreadyExists { name, source } => String::from_str("pair '").concat(
                name.as_str(),
            ).concat("' already exists in ").concat(scope_label(*source).as_str()).concat(
                " config",
            ),
            ConfigError::NotFound { name, source } => String::from_str("pair '").concat(
                name.as_str(),
            ).concat("' not found in ").concat(scope_label(*source).as_str()).concat(" config"),
        }
    }
}

/// The word used for a configuration file in messages.
pub fn scope_label(source: PairSource) -> (r: String)
    ensures
        r@ == scope_word(source),
{
    match source {
        PairSource::Local => String::from_str("local"),
        PairSource::Global => String::from_str("global"),
    }
}

/// The path of the local configuration file, in the working directory.
pub fn local_config_path() -> (r: String)
    ensures
        r@ == "crabsync.toml"@,
{
    String::from_str("crabsync.toml")
}

/// The path of the global configuration file below the home directory
/// `home`, or below `/tmp` when there is none.
pub fn global_config_path_in(home: Option<String>) -> (r: String)
    ensures
        r@ == global_path_spec(home),
{
    let base = match home {
        Some(h) => h,
        None => String::from_str("/tmp"),
    };
    let rel = ".config/crabsync/crabsync.toml";
    let n = base.as_str().unicode_len();
    if n == 0 {
        String::from_str(rel)
    } else if base.as_str().get_char(n - 1) == '/' {
        base.concat(rel)
    } else {
        base.concat("/").concat(rel)
    }
}

fn contains_name(names: &Vec<String>, name: &String) -> (r: bool)
    ensures
        r == crate::text::views(names@).contains(name@),
{
    let n = names.len();
    let mut i: usize = 0;
    while i < n
        invariant
            n == names@.len(),
            i <= n,
            forall|j: int| 0 <= j < i ==> names@[j]@ != name@,
        decreases n - i,
    {
        if names[i] == *name {
            assert(crate::text::views(names@)[i as int] == name@);
            return true;
        }
        i = i + 1;
    }
    assert forall|j: int| 0 <= j < crate::text::views(names@).len() implies crate::text::views(
        names@,
    )[j] != name@ by {
        assert(crate::text::views(names@)[j] == names@[j]@);
    }
    false
}

/// All pairs of both configuration files: the local pairs first, never
/// shadowed, then the global pairs, each shadowed when a local pair has its
/// name; both in file order.
pub fn tag_pairs(local_pairs: Vec<Pair>, global_pairs: Vec<Pair>) -> (r: Vec<TaggedPair>)
    ensures
        r@ == merged_pairs(local_pairs@, global_pairs@),
{
    let mut local_names: Vec<String> = Vec::new();
    let mut result: Vec<TaggedPair> = Vec::new();
    let n = local_pairs.len();
    let mut i: usize = 0;
    while i < n
        invariant
            n == local_pairs@.len(),
            i <= n,
            crate::text::views(local_names@) == pair_names(local_pairs@).take(i as int),
            local_names@.len() == i,
            result@ == local_pairs@.take(i as int).map_values(|p: Pair| local_tag(p)),
        decreases n - i,
    {
        let p = local_pairs[i].copy();
        local_names.push(p.name.clone());
        result.push(TaggedPair { pair: p, source: PairSource::Local, shadowed: false });
        proof {
            assert(local_names@[i as int]@ == local_pairs@[i as int].name@);
            assert forall|j: int| 0 <= j < i + 1 implies #[trigger] crate::text::views(local_names@)[j]
                == pair_names(local_pairs@).take(i + 1)[j] by {
                if j < i {
                    assert(crate::text::views(local_names@)[j] == crate::text::views(
                        local_names@,
                    ).take(i as int)[j]);
                }
            }
            assert(crate::text::views(local_names@) =~= pair_names(local_pairs@).take(i + 1));
            assert(result@ =~= local_pairs@.take(i + 1).map_values(|p: Pair| local_tag(p)));
        }
        i = i + 1;
    }
    assert(local_pairs@.take(n as int) =~= local_pairs@);
    assert(pair_names(local_pairs@).take(n as int) =~= pair_names(local_pairs@));
    let ghost locals = result@;
    let m = global_pairs.len();
    let mut k: usize = 0;
    while k < m
        invariant
            m == global_pairs@.len(),
            k <= m,
            crate::text::views(local_names@) == pair_names(local_pairs@),
            locals == local_pairs@.map_values(|p: Pair| local_tag(p)),
            result@ == locals + global_pairs@.take(k as int).map_values(
                |p: Pair| global_tag(p, pair_names(local_pairs@)),
            ),
        decreases m - k,
    {
        let p = global_pairs[k].copy();
        let shadowed = contains_name(&local_names, &p.name);
        result.push(TaggedPair { pair: p, source: PairSource::Global, shadowed });
        proof {
            assert(result@ =~= locals + global_pairs@.take(k + 1).map_values(
                |p: Pair| global_tag(p, pair_names(local_pairs@)),
            ));
        }
        k = k + 1;
    }
    assert(global_pairs@.take(m as int) =~= global_pairs@);
    result
}

proof fn lemma_first_accepted(all: Seq<TaggedPair>, name: Seq<char>, unshadowed_only: bool, i: int)
    requires
        0 <= i <= all.len(),
        forall|j: int| 0 <= j < i ==> !lookup_accepts(#[trigger] all[j], name, unshadowed_only),
    ensures
        i < all.len() && lookup_accepts(all[i], name, unshadowed_only) ==> first_accepted(
            all,
            name,
            unshadowed_only,
        ) == i,
        i == all.len() ==> first_accepted(all, name, unshadowed_only) == -1,
    decreases i,
{
    if i > 0 {
        let rest = all.drop_first();
        assert forall|j: int| 0 <= j < i - 1 implies !lookup_accepts(
            #[trigger] rest[j],
            name,
            unshadowed_only,
        ) by {
            assert(rest[j] == all[j + 1]);
        }
        lemma_first_accepted(rest, name, unshadowed_only, i - 1);
        if i < all.len() {
            assert(rest[i - 1] == all[i]);
        }
    }
}

/// The index of the first pair that a lookup by `name` accepts.
pub(crate) fn find_accepted(all: &Vec<TaggedPair>, name: &String, unshadowed_only: bool) -> (r: Option<usize>)
    ensures
        match r {
            Some(k) => k as int == first_accepted(all@, name@, unshadowed_only) && k < all@.len(),
            None => first_accepted(all@, name@, unshadowed_only) == -1,
        },
{
    let n = all.len();
    let mut i: usize = 0;
    while i < n
        invariant
            n == all@.len(),
            i <= n,
            forall|j: int| 0 <= j < i ==> !lookup_accepts(#[trigger] all@[j], name@, unshadowed_only),
        decreases n - i,
    {
        if all[i].pair.name == *name && (!unshadowed_only || !all[i].shadowed) {
            proof {
                lemma_first_accepted(all@, name@, unshadowed_only, i as int);
            }
            return Some(i);
        }
        i = i + 1;
    }
    proof {
        lemma_first_accepted(all@, name@, unshadowed_only, n as int);
    }
    None
}

/// The pair called `name`: the first unshadowed one, else the first one of
/// that name, or `None` when no pair has the name.
pub fn find_pair_by_name(all: &Vec<TaggedPair>, name: &String) -> (r: Option<TaggedPair>)
    ensures
        r == lookup(all@, name@),
{
    match find_accepted(all, name, true) {
        Some(k) => Some(all[k].copy()),
        None => match find_accepted(all, name, false) {
            Some(j) => Some(all[j].copy()),
            None => None,
        },
    }
}

/// Adds a pair called `name` at the end of the pairs of one configuration
/// file (`source` names it in the error), unless a pair of that name is
/// already there.
pub fn add_pair(
    pairs: &mut Vec<Pair>,
    name: String,
    local: String,
    remote: String,
    source: PairSource,
) -> (r: Result<(), ConfigError>)
    ensures
        pair_names(old(pairs)@).contains(name@) ==> r == Err::<(), ConfigError>(
            ConfigError::AlreadyExists { name, source },
        ) && final(pairs)@ == old(pairs)@,
        !pair_names(old(pairs)@).contains(name@) ==> r is Ok && final(pairs)@ == old(pairs)@.push(
            Pair { name, local, remote },
        ),
{
    let n = pairs.len();
    let mut i: usize = 0;
    while i < n
        invariant
            n == pairs@.len(),
            pairs@ == old(pairs)@,
            i <= n,
            forall|j: int| 0 <= j < i ==> pairs@[j].name@ != name@,
        decreases n - i,
    {
        if pairs[i].name == name {
            assert(pair_names(pairs@)[i as int] == name@);
            return Err(ConfigError::AlreadyExists { name, source });
        }
        i = i + 1;
    }
    assert(!pair_names(pairs@).contains(name@)) by {
        assert forall|j: int| 0 <= j < pair_names(pairs@).len() implies pair_names(pairs@)[j]
            != name@ by {
            assert(pair_names(pairs@)[j] == pairs@[j].name@);
        }
    }
    pairs.push(Pair { name, local, remote });
    Ok(())
}

/// Removes every pair called `name` from the pairs of one configuration file
/// (`source` names it in the error). When none has the name, that is an
/// error; when none is left, the file is to be deleted, else the remaining
/// pairs are to be written.
pub fn remove_pair(pairs: Vec<Pair>, name: &String, source: PairSource) -> (r: Result<
    RemoveOutcome,
    ConfigError,
>)
    ensures
        !pair_names(pairs@).contains(name@) ==> (r matches Err(ConfigError::NotFound { name: n, source: s })
            && n@ == name@ && s == source),
        pair_names(pairs@).contains(name@) && without_name(pairs@, name@).len() == 0 ==> (r matches Ok(
            RemoveOutcome::DeleteFile,
        )),
        pair_names(pairs@).contains(name@) && without_name(pairs@, name@).len() > 0 ==> (r matches Ok(
            RemoveOutcome::Save(kept),
        ) && kept@ == without_name(pairs@, name@)),
{
    let n = pairs.len();
    let mut kept: Vec<Pair> = Vec::new();
    let mut i: usize = 0;
    while i < n
        invariant
            n == pairs@.len(),
            i <= n,
            kept@ == without_name(pairs@.take(i as int), name@),
            kept@.len() <= i,
            kept@.len() == i <==> forall|j: int| 0 <= j < i ==> pairs@[j].name@ != name@,
        decreases n - i,
    {
        let keep = !(pairs[i].name == *name);
        if keep {
            kept.push(pairs[i].copy());
        }
        proof {
            let t = pairs@.take(i + 1);
            assert(t.drop_last() =~= pairs@.take(i as int));
            reveal_with_fuel(Seq::filter, 1);
            assert(without_name(t, name@) == if keep {
                without_name(pairs@.take(i as int), name@).push(pairs@[i as int])
            } else {
                without_name(pairs@.take(i as int), name@)
            });
        }
        i = i + 1;
    }
    assert(pairs@.take(n as int) =~= pairs@);
    assert(pair_names(pairs@).contains(name@) <==> kept@.len() < n) by {
        if kept@.len() < n {
            let j = choose|j: int| 0 <= j < n && pairs@[j].name@ == name@;
            assert(pair_names(pairs@)[j] == name@);
        } else {
            assert forall|j: int| 0 <= j < pair_names(pairs@).len() implies pair_names(pairs@)[j]
                != name@ by {
                assert(pair_names(pairs@)[j] == pairs@[j].name@);
            }
        }
    }
    if kept.len() == n {
        return Err(ConfigError::NotFound { name: name.clone(), source });
    }
    if kept.len() == 0 {
        Ok(RemoveOutcome::DeleteFile)
    } else {
        Ok(RemoveOutcome::Save(kept))
    }
}

/// Merging keeps every pair once and in file order: the local pairs come
/// first, none of them shadowed; then the global pairs, each shadowed
/// exactly when a local pair has its name.
pub proof fn merge_keeps_pairs(local: Seq<Pair>, global: Seq<Pair>)
    ensures
        merged_pairs(local, global).len() == local.len() + global.len(),
        forall|i: int|
            0 <= i < local.len() ==> {
                let tp = #[trigger] merged_pairs(local, global)[i];
                tp.pair == local[i] && tp.source == PairSource::Local && !tp.shadowed
            },
        forall|j: int|
            0 <= j < global.len() ==> {
                let tp = #[trigger] merged_pairs(local, global)[local.len() + j];
                &&& tp.pair == global[j]
                &&& tp.source == PairSource::Global
                &&& tp.shadowed == exists|i: int| 0 <= i < local.len() && local[i].name@ == global[j].name@
            },
{
    let m = merged_pairs(local, global);
    assert forall|j: int| 0 <= j < global.len() implies {
        let tp = #[trigger] m[local.len() + j];
        &&& tp.pair == global[j]
        &&& tp.source == PairSource::Global
        &&& tp.shadowed == exists|i: int| 0 <= i < local.len() && local[i].name@ == global[j].name@
    } by {
        let tp = m[local.len() + j];
        assert(tp == global_tag(global[j], pair_names(local)));
        if tp.shadowed {
            let i = choose|i: int| 0 <= i < pair_names(local).len() && pair_names(local)[i] == global[j].name@;
            assert(local[i].name@ == global[j].name@);
        }
        if exists|i: int| 0 <= i < local.len() && local[i].name@ == global[j].name@ {
            let i = choose|i: int| 0 <= i < local.len() && local[i].name@ == global[j].name@;
            assert(pair_names(local)[i] == global[j].name@);
        }
    }
}

proof fn lemma_first_accepted_props(all: Seq<TaggedPair>, name: Seq<char>, unshadowed_only: bool)
    ensures
        first_accepted(all, name, unshadowed_only) >= 0 ==> {
            let r = first_accepted(all, name, unshadowed_only);
            &&& r < all.len()
            &&& lookup_accepts(all[r], name, unshadowed_only)
            &&& forall|j: int| 0 <= j < r ==> !lookup_accepts(#[trigger] all[j], name, unshadowed_only)
        },
        first_accepted(all, name, unshadowed_only) < 0 ==> first_accepted(all, name, unshadowed_only)
            == -1 && forall|j: int| 0 <= j < all.len() ==> !lookup_accepts(#[trigger] all[j], name, unshadowed_only),
    decreases all.len(),
{
    if all.len() > 0 {
        let rest = all.drop_first();
        lemma_first_accepted_props(rest, name, unshadowed_only);
        assert forall|j: int| 1 <= j < all.len() implies all[j] == rest[j - 1] by {}
    }
}

/// In the merged list, a lookup by name finds the first pair of that name,
/// and that pair is never shadowed: a local pair when there is one, else the
/// first global one.
pub proof fn lookup_finds_first_unshadowed(local: Seq<Pair>, global: Seq<Pair>, name: Seq<char>)
    ensures
        ({
            let all = merged_pairs(local, global);
            let j = first_accepted(all, name, false);
            &&& j >= 0 ==> lookup(all, name) == Some(all[j]) && !all[j].shadowed
            &&& j < 0 ==> lookup(all, name) is None
            &&& pair_names(local).contains(name) ==> (lookup(all, name) matches Some(tp)
                && tp.source == PairSource::Local)
        }),
{
    let all = merged_pairs(local, global);
    merge_keeps_pairs(local, global);
    lemma_first_accepted_props(all, name, false);
    lemma_first_accepted_props(all, name, true);
    let j = first_accepted(all, name, false);
    if j >= 0 {
        // The first pair of that name is not shadowed.
        if all[j].shadowed {
            assert(j >= local.len());
            let g = j - local.len();
            let i = choose|i: int| 0 <= i < local.len() && local[i].name@ == global[g].name@;
            assert(all[i].pair.name@ == name);
            assert(lookup_accepts(all[i], name, false));
            assert(false);
        }
        assert forall|m: int| 0 <= m < j implies !lookup_accepts(#[trigger] all[m], name, true) by {
            assert(!lookup_accepts(all[m], name, false));
        }
        lemma_first_accepted(all, name, true, j);
    } else {
        assert forall|m: int| 0 <= m < all.len() implies !lookup_accepts(#[trigger] all[m], name, true) by {
            assert(!lookup_accepts(all[m], name, false));
        }
        lemma_first_accepted(all, name, true, all.len() as int);
    }
    if pair_names(local).contains(name) {
        let i = choose|i: int| 0 <= i < pair_names(local).len() && pair_names(local)[i] == name;
        assert(lookup_accepts(all[i], name, false));
        assert(j >= 0 && j <= i);
    }
}

/// Removing a name leaves no pair of that name and keeps every other pair,
/// in order.
pub proof fn remove_clears_name(pairs: Seq<Pair>, name: Seq<char>)
    ensures
        !pair_names(without_name(pairs, name)).contains(name),
        forall|p: Pair| pairs.contains(p) && p.name@ != name ==> without_name(pairs, name).contains(p),
{
    broadcast use vstd::seq_lib::group_filter_ensures;
    let kept = without_name(pairs, name);
    assert forall|i: int| 0 <= i < pair_names(kept).len() implies pair_names(kept)[i] != name by {
        assert(kept.contains(kept[i]));
    }
}

/// Adding a pair of a new name and removing that name again gives back the
/// pairs that were there before.
pub proof fn add_then_remove_round_trip(pairs: Seq<Pair>, added: Pair)
    requires
        !pair_names(pairs).contains(added.name@),
    ensures
        without_name(pairs.push(added), added.name@) == pairs,
{
    lemma_without_absent(pairs, added.name@);
    reveal_with_fuel(Seq::filter, 1);
    assert(pairs.push(added).drop_last() =~= pairs);
}

proof fn lemma_without_absent(pairs: Seq<Pair>, name: Seq<char>)
    requires
        !pair_names(pairs).contains(name),
    ensures
        without_name(pairs, name) == pairs,
    decreases pairs.len(),
{
    if pairs.len() > 0 {
        let init = pairs.drop_last();
        assert(!pair_names(init).contains(name)) by {
            if pair_names(init).contains(name) {
                let i = choose|i: int| 0 <= i < pair_names(init).len() && pair_names(init)[i] == name;
                assert(pair_names(pairs)[i] == name);
            }
        }
        lemma_without_absent(init, name);
        assert(pair_names(pairs)[pairs.len() - 1] == pairs.last().name@);
        reveal_with_fuel(Seq::filter, 1);
        assert(init.push(pairs.last()) =~= pairs);
    } else {
        reveal_with_fuel(Seq::filter, 1);
    }
}

/// Once a pair is added, a second pair of the same name is refused.
pub proof fn added_name_is_taken(pairs: Seq<Pair>, added: Pair)
    ensures
        pair_names(pairs.push(added)).contains(added.name@),
{
    assert(pair_names(pairs.push(added))[pairs.len() as int] == added.name@);
}

} // verus!
