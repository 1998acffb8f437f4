//! The plugin set and its canonical serialization.
//!
//! Plugins are kept as they were added; before serialization they are
//! brought into a canonical order — built-in plugins before custom ones,
//! each group ordered by canonical display form — and exact duplicates are
//! collapsed. The serialized entry is therefore a pure function of the
//! plugin *set*, whatever the order and multiplicity of the calls that
//! accumulated it.

use vstd::prelude::*;
use vstd::relations::{sorted_by, total_ordering};
use vstd::seq_lib::lemma_sorted_unique;
use vstd::string::StringExecFns;
use crate::text::{lex_lt, lemma_lex_transitive, lemma_lex_trichotomy, push_char, str_eq,
    str_lex_lt};

verus! {

/// A known Neo4j Labs plugin, or a custom one named by the caller.
#[derive(Debug)]
pub enum Neo4jLabsPlugin {
    Apoc,
    ApocCore,
    Bloom,
    Streams,
    GraphDataScience,
    NeoSemantics,
    Custom(String),
}

impl Clone for Neo4jLabsPlugin {
    fn clone(&self) -> (res: Self)
        ensures
            res == *self,
    {
        match self {
            Neo4jLabsPlugin::Apoc => Neo4jLabsPlugin::Apoc,
            Neo4jLabsPlugin::ApocCore => Neo4jLabsPlugin::ApocCore,
            Neo4jLabsPlugin::Bloom => Neo4jLabsPlugin::Bloom,
            Neo4jLabsPlugin::Streams => Neo4jLabsPlugin::Streams,
            Neo4jLabsPlugin::GraphDataScience => Neo4jLabsPlugin::GraphDataScience,
            Neo4jLabsPlugin::NeoSemantics => Neo4jLabsPlugin::NeoSemantics,
            Neo4jLabsPlugin::Custom(name) => Neo4jLabsPlugin::Custom(name.clone()),
        }
    }
}

/// The canonical lowercase-hyphenated display form, used verbatim in the
/// derived environment value.
pub open spec fn spec_display(p: Neo4jLabsPlugin) -> Seq<char> {
    match p {
        Neo4jLabsPlugin::Apoc => "apoc"@,
        Neo4jLabsPlugin::ApocCore => "apoc-core"@,
        Neo4jLabsPlugin::Bloom => "bloom"@,
        Neo4jLabsPlugin::Streams => "streams"@,
        Neo4jLabsPlugin::GraphDataScience => "graph-data-science"@,
        Neo4jLabsPlugin::NeoSemantics => "n10s"@,
        Neo4jLabsPlugin::Custom(name) => name@,
    }
}

/// What identifies a plugin: whether it is custom, and its display form.
/// Two plugins are the same exactly when their keys are equal.
pub type PluginKey = (bool, Seq<char>);

/// The key of a plugin.
pub open spec fn plugin_key(p: Neo4jLabsPlugin) -> PluginKey {
    (p is Custom, spec_display(p))
}

/// The keys of a sequence of plugins, in order.
pub open spec fn keys_of(ps: Seq<Neo4jLabsPlugin>) -> Seq<PluginKey> {
    ps.map_values(|p: Neo4jLabsPlugin| plugin_key(p))
}

/// The canonical order: built-in plugins before custom ones, then by
/// display form.
pub open spec fn key_lt(a: PluginKey, b: PluginKey) -> bool {
    (!a.0 && b.0) || (a.0 == b.0 && lex_lt(a.1, b.1))
}

/// The reflexive closure of `key_lt`.
pub open spec fn key_le(a: PluginKey, b: PluginKey) -> bool {
    key_lt(a, b) || a == b
}

/// Any two keys are ordered one way or the other, or equal.
pub proof fn lemma_key_trichotomy(a: PluginKey, b: PluginKey)
    ensures
        key_lt(a, b) || key_lt(b, a) || a == b,
        key_lt(a, b) ==> !key_lt(b, a),
        key_lt(a, b) ==> a != b,
{
    lemma_lex_trichotomy(a.1, b.1);
}

/// `key_lt` is transitive.
pub proof fn lemma_key_transitive(a: PluginKey, b: PluginKey, c: PluginKey)
    requires
        key_lt(a, b),
        key_lt(b, c),
    ensures
        key_lt(a, c),
{
    if a.0 == b.0 && b.0 == c.0 {
        lemma_lex_transitive(a.1, b.1, c.1);
    }
}

/// `key_le` is a total ordering.
pub proof fn lemma_key_le_total_ordering()
    ensures
        total_ordering(|a: PluginKey, b: PluginKey| key_le(a, b)),
{
    let r = |a: PluginKey, b: PluginKey| key_le(a, b);
    assert forall|a: PluginKey, b: PluginKey| #[trigger] r(a, b) || #[trigger] r(b, a) by {
        lemma_key_trichotomy(a, b);
    }
    assert forall|a: PluginKey, b: PluginKey| #[trigger] r(a, b) && #[trigger] r(b, a) implies a
        == b by {
        lemma_key_trichotomy(a, b);
    }
    assert forall|a: PluginKey, b: PluginKey, c: PluginKey|
        #[trigger] r(a, b) && #[trigger] r(b, c) implies r(a, c) by {
        if a != b && b != c {
            lemma_key_transitive(a, b, c);
        }
    }
}

impl Neo4jLabsPlugin {
    /// The canonical display form.
    pub fn display_form(&self) -> (r: &str)
        ensures
            r@ == spec_display(*self),
    {
        match self {
            Neo4jLabsPlugin::Apoc => "apoc",
            Neo4jLabsPlugin::ApocCore => "apoc-core",
            Neo4jLabsPlugin::Bloom => "bloom",
            Neo4jLabsPlugin::Streams => "streams",
            Neo4jLabsPlugin::GraphDataScience => "graph-data-science",
            Neo4jLabsPlugin::NeoSemantics => "n10s",
            Neo4jLabsPlugin::Custom(name) => name.as_str(),
        }
    }

    fn is_custom_variant(&self) -> (r: bool)
        ensures
            r == (*self is Custom),
    {
        match self {
            Neo4jLabsPlugin::Custom(_) => true,
            _ => false,
        }
    }
}

/// Decides the canonical order of two plugins.
fn plugin_lt(a: &Neo4jLabsPlugin, b: &Neo4jLabsPlugin) -> (r: bool)
    ensures
        r == key_lt(plugin_key(*a), plugin_key(*b)),
{
    let ac = a.is_custom_variant();
    let bc = b.is_custom_variant();
    if ac != bc {
        !ac
    } else {
        str_lex_lt(a.display_form(), b.display_form())
    }
}

/// Decides whether two plugins are the same.
fn plugin_key_eq(a: &Neo4jLabsPlugin, b: &Neo4jLabsPlugin) -> (r: bool)
    ensures
        r == (plugin_key(*a) == plugin_key(*b)),
{
    let ac = a.is_custom_variant();
    let bc = b.is_custom_variant();
    if ac != bc {
        false
    } else {
        str_eq(a.display_form(), b.display_form())
    }
}

/// `v` inserted into an ordered key sequence, keeping the order and
/// dropping `v` when it is already there.
pub open spec fn insert_key(s: Seq<PluginKey>, v: PluginKey) -> Seq<PluginKey>
    decreases s.len(),
{
    if s.len() == 0 {
        seq![v]
    } else if v == s[0] {
        s
    } else if key_lt(v, s[0]) {
        seq![v] + s
    } else {
        seq![s[0]] + insert_key(s.drop_first(), v)
    }
}

/// The canonical form of a key sequence: strictly ordered, duplicates
/// collapsed.
pub open spec fn canonical_keys(s: Seq<PluginKey>) -> Seq<PluginKey>
    decreases s.len(),
{
    if s.len() == 0 {
        Seq::<PluginKey>::empty()
    } else {
        insert_key(canonical_keys(s.drop_last()), s.last())
    }
}

/// Strictly increasing under the canonical order.
pub open spec fn keys_strictly_sorted(s: Seq<PluginKey>) -> bool {
    forall|i: int, j: int| 0 <= i < j < s.len() ==> key_lt(#[trigger] s[i], #[trigger] s[j])
}

proof fn lemma_insert_key(s: Seq<PluginKey>, v: PluginKey)
    requires
        keys_strictly_sorted(s),
    ensures
        keys_strictly_sorted(insert_key(s, v)),
        forall|x: PluginKey| #[trigger] insert_key(s, v).contains(x) <==> (s.contains(x) || x
            == v),
    decreases s.len(),
{
    let r = insert_key(s, v);
    if s.len() == 0 {
        assert forall|x: PluginKey| #[trigger] r.contains(x) <==> (s.contains(x) || x == v) by {
            assert(r[0] == v);
        }
    } else if v == s[0] {
        assert forall|x: PluginKey| #[trigger] r.contains(x) <==> (s.contains(x) || x == v) by {
            assert(s[0] == v);
        }
    } else if key_lt(v, s[0]) {
        assert(r =~= seq![v] + s);
        assert forall|i: int, j: int| 0 <= i < j < r.len() implies key_lt(r[i], r[j]) by {
            if i == 0 {
                if j > 1 {
                    lemma_key_transitive(v, s[0], s[j - 1]);
                }
            }
        }
        assert forall|x: PluginKey| #[trigger] r.contains(x) <==> (s.contains(x) || x == v) by {
            if r.contains(x) {
                let i = choose|i: int| 0 <= i < r.len() && r[i] == x;
                if i > 0 {
                    assert(s[i - 1] == x);
                }
            }
            if s.contains(x) {
                let i = choose|i: int| 0 <= i < s.len() && s[i] == x;
                assert(r[i + 1] == x);
            }
            if x == v {
                assert(r[0] == x);
            }
        }
    } else {
        lemma_key_trichotomy(v, s[0]);
        assert(key_lt(s[0], v));
        let tail = insert_key(s.drop_first(), v);
        assert(keys_strictly_sorted(s.drop_first())) by {
            assert forall|i: int, j: int|
                0 <= i < j < s.drop_first().len() implies key_lt(
                #[trigger] s.drop_first()[i],
                #[trigger] s.drop_first()[j],
            ) by {
                assert(s.drop_first()[i] == s[i + 1]);
                assert(s.drop_first()[j] == s[j + 1]);
            }
        }
        lemma_insert_key(s.drop_first(), v);
        assert(r =~= seq![s[0]] + tail);
        assert forall|x: PluginKey| #[trigger] r.contains(x) <==> (s.contains(x) || x == v) by {
            if r.contains(x) {
                let i = choose|i: int| 0 <= i < r.len() && r[i] == x;
                if i > 0 {
                    assert(tail[i - 1] == x);
                    assert(tail.contains(x));
                    if s.drop_first().contains(x) {
                        let k = choose|k: int| 0 <= k < s.drop_first().len()
                            && s.drop_first()[k] == x;
                        assert(s[k + 1] == x);
                    }
                } else {
                    assert(s[0] == x);
                }
            }
            if s.contains(x) {
                let i = choose|i: int| 0 <= i < s.len() && s[i] == x;
                if i == 0 {
                    assert(r[0] == x);
                } else {
                    assert(s.drop_first()[i - 1] == x);
                    assert(s.drop_first().contains(x));
                    assert(tail.contains(x));
                    let k = choose|k: int| 0 <= k < tail.len() && tail[k] == x;
                    assert(r[k + 1] == x);
                }
            }
            if x == v {
                assert(tail.contains(x));
                let k = choose|k: int| 0 <= k < tail.len() && tail[k] == x;
                assert(r[k + 1] == x);
            }
        }
        assert forall|i: int, j: int| 0 <= i < j < r.len() implies key_lt(r[i], r[j]) by {
            if i == 0 {
                assert(tail.contains(tail[j - 1]));
                if s.drop_first().contains(tail[j - 1]) {
                    let k = choose|k: int| 0 <= k < s.drop_first().len() && s.drop_first()[k]
                        == tail[j - 1];
                    assert(s[k + 1] == tail[j - 1]);
                    assert(key_lt(s[0], s[k + 1]));
                } else {
                    assert(tail[j - 1] == v);
                }
            } else {
                assert(r[i] == tail[i - 1]);
                assert(r[j] == tail[j - 1]);
            }
        }
    }
}

proof fn lemma_canonical_keys(s: Seq<PluginKey>)
    ensures
        keys_strictly_sorted(canonical_keys(s)),
        forall|x: PluginKey| #[trigger] canonical_keys(s).contains(x) <==> s.contains(x),
    decreases s.len(),
{
    if s.len() > 0 {
        lemma_canonical_keys(s.drop_last());
        lemma_insert_key(canonical_keys(s.drop_last()), s.last());
        assert forall|x: PluginKey| #[trigger] canonical_keys(s).contains(x) <==> s.contains(x) by {
            if s.drop_last().contains(x) {
                let i = choose|i: int| 0 <= i < s.drop_last().len() && s.drop_last()[i] == x;
                assert(s[i] == x);
            }
            if s.contains(x) {
                let i = choose|i: int| 0 <= i < s.len() && s[i] == x;
                if i < s.len() - 1 {
                    assert(s.drop_last()[i] == x);
                }
            }
        }
    }
}

/// The canonical form of a key sequence depends only on the set of its
/// elements: plugin sets accumulated in any order, with any repetition,
/// serialize identically.
pub proof fn lemma_canonical_keys_set_determined(a: Seq<PluginKey>, b: Seq<PluginKey>)
    requires
        a.to_set() == b.to_set(),
    ensures
        canonical_keys(a) == canonical_keys(b),
{
    broadcast use vstd::set::group_set_axioms;
    broadcast use vstd::seq_lib::to_multiset_contains;

    let ca = canonical_keys(a);
    let cb = canonical_keys(b);
    lemma_canonical_keys(a);
    lemma_canonical_keys(b);
    assert forall|x: PluginKey| ca.contains(x) <==> cb.contains(x) by {
        assert(a.contains(x) <==> a.to_set().contains(x));
        assert(b.contains(x) <==> b.to_set().contains(x));
    }
    assert(ca.no_duplicates()) by {
        assert forall|i: int, j: int|
            0 <= i < ca.len() && 0 <= j < ca.len() && i != j implies ca[i] != ca[j] by {
            if i < j {
                lemma_key_trichotomy(ca[i], ca[j]);
            } else {
                lemma_key_trichotomy(ca[j], ca[i]);
            }
        }
    }
    assert(cb.no_duplicates()) by {
        assert forall|i: int, j: int|
            0 <= i < cb.len() && 0 <= j < cb.len() && i != j implies cb[i] != cb[j] by {
            if i < j {
                lemma_key_trichotomy(cb[i], cb[j]);
            } else {
                lemma_key_trichotomy(cb[j], cb[i]);
            }
        }
    }
    ca.lemma_multiset_has_no_duplicates();
    cb.lemma_multiset_has_no_duplicates();
    assert forall|x: PluginKey| ca.to_multiset().count(x) == cb.to_multiset().count(x) by {
        if ca.contains(x) {
            assert(ca.to_multiset().count(x) == 1);
            assert(cb.to_multiset().count(x) == 1);
        } else {
            assert(ca.to_multiset().count(x) == 0);
            assert(cb.to_multiset().count(x) == 0);
        }
    }
    assert(ca.to_multiset() =~= cb.to_multiset());
    let le = |x: PluginKey, y: PluginKey| key_le(x, y);
    lemma_key_le_total_ordering();
    assert(sorted_by(ca, le));
    assert(sorted_by(cb, le));
    lemma_sorted_unique(ca, cb, le);
}

/// The plugins in canonical order, exact duplicates collapsed.
pub fn canonicalize(ps: &Vec<Neo4jLabsPlugin>) -> (r: Vec<Neo4jLabsPlugin>)
    ensures
        keys_of(r@) == canonical_keys(keys_of(ps@)),
{
    let mut sorted: Vec<Neo4jLabsPlugin> = Vec::new();
    let n = ps.len();
    let mut i: usize = 0;
    proof {
        assert(keys_of(ps@.subrange(0, 0)) =~= Seq::<PluginKey>::empty());
        assert(keys_of(sorted@) =~= Seq::<PluginKey>::empty());
    }
    while i < n
        invariant
            i <= n,
            n == ps@.len(),
            keys_of(sorted@) == canonical_keys(keys_of(ps@.subrange(0, i as int))),
        decreases n - i,
    {
        insert_plugin(&mut sorted, ps[i].clone());
        proof {
            let pre = keys_of(ps@.subrange(0, i as int));
            let post = keys_of(ps@.subrange(0, i as int + 1));
            assert(post.drop_last() =~= pre);
            assert(post.last() == plugin_key(ps@[i as int]));
        }
        i = i + 1;
    }
    proof {
        assert(ps@.subrange(0, n as int) =~= ps@);
    }
    sorted
}

/// Inserts one plugin into an ordered, duplicate-free vector.
fn insert_plugin(v: &mut Vec<Neo4jLabsPlugin>, p: Neo4jLabsPlugin)
    ensures
        keys_of(final(v)@) == insert_key(keys_of(old(v)@), plugin_key(p)),
{
    let n = v.len();
    let mut i: usize = 0;
    while i < n && plugin_lt(&v[i], &p)
        invariant
            i <= n,
            n == v@.len(),
            v@ == old(v)@,
            forall|j: int| 0 <= j < i ==> key_lt(keys_of(v@)[j], plugin_key(p)),
        decreases n - i,
    {
        i = i + 1;
    }
    if i < n {
        let same = plugin_key_eq(&v[i], &p);
        if same {
            proof {
                lemma_insert_key_found(keys_of(v@), plugin_key(p), i as int);
            }
            return ;
        }
        proof {
            lemma_key_trichotomy(keys_of(v@)[i as int], plugin_key(p));
        }
    }
    proof {
        lemma_insert_key_position(keys_of(old(v)@), plugin_key(p), i as int);
    }
    v.insert(i, p);
    proof {
        assert(keys_of(v@) =~= keys_of(old(v)@).take(i as int) + seq![plugin_key(p)] + keys_of(
            old(v)@,
        ).skip(i as int));
    }
}

proof fn lemma_insert_key_found(s: Seq<PluginKey>, v: PluginKey, i: int)
    requires
        0 <= i < s.len(),
        forall|j: int| 0 <= j < i ==> key_lt(#[trigger] s[j], v),
        s[i] == v,
    ensures
        insert_key(s, v) == s,
    decreases i,
{
    if i == 0 {
        assert(s[0] == v);
    } else {
        lemma_key_trichotomy(s[0], v);
        assert forall|j: int| 0 <= j < i - 1 implies key_lt(#[trigger] s.drop_first()[j], v) by {
            assert(s.drop_first()[j] == s[j + 1]);
        }
        assert(s.drop_first()[i - 1] == s[i]);
        lemma_insert_key_found(s.drop_first(), v, i - 1);
        assert(insert_key(s, v) =~= seq![s[0]] + insert_key(s.drop_first(), v));
        assert(seq![s[0]] + s.drop_first() =~= s);
    }
}

proof fn lemma_insert_key_position(s: Seq<PluginKey>, v: PluginKey, i: int)
    requires
        0 <= i <= s.len(),
        forall|j: int| 0 <= j < i ==> key_lt(#[trigger] s[j], v),
        i == s.len() || key_lt(v, s[i]),
    ensures
        insert_key(s, v) == s.take(i) + seq![v] + s.skip(i),
    decreases i,
{
    if i == 0 {
        if s.len() == 0 {
            assert(insert_key(s, v) =~= s.take(0) + seq![v] + s.skip(0));
        } else {
            lemma_key_trichotomy(v, s[0]);
            assert(insert_key(s, v) =~= s.take(0) + seq![v] + s.skip(0));
        }
    } else {
        lemma_key_trichotomy(s[0], v);
        assert forall|j: int| 0 <= j < i - 1 implies key_lt(#[trigger] s.drop_first()[j], v) by {
            assert(s.drop_first()[j] == s[j + 1]);
        }
        if i < s.len() {
            assert(s.drop_first()[i - 1] == s[i]);
        }
        lemma_insert_key_position(s.drop_first(), v, i - 1);
        assert(insert_key(s, v) =~= seq![s[0]] + insert_key(s.drop_first(), v));
        assert(seq![s[0]] + (s.drop_first().take(i - 1) + seq![v] + s.drop_first().skip(i - 1))
            =~= s.take(i) + seq![v] + s.skip(i));
    }
}

/// A display form wrapped in double quotes.
pub open spec fn quoted(d: Seq<char>) -> Seq<char> {
    seq!['"'] + d + seq!['"']
}

/// Quoted display forms joined by commas.
pub open spec fn joined(ds: Seq<Seq<char>>) -> Seq<char>
    decreases ds.len(),
{
    if ds.len() == 0 {
        Seq::<char>::empty()
    } else if ds.len() == 1 {
        quoted(ds[0])
    } else {
        joined(ds.drop_last()) + seq![','] + quoted(ds.last())
    }
}

/// The display forms of a key sequence.
pub open spec fn displays_of(keys: Seq<PluginKey>) -> Seq<Seq<char>> {
    keys.map_values(|k: PluginKey| k.1)
}

/// The derived plugin environment value for an ordered key sequence:
/// quoted display forms, comma-joined, in brackets.
pub open spec fn plugins_value(keys: Seq<PluginKey>) -> Seq<char> {
    seq!['['] + joined(displays_of(keys)) + seq![']']
}

/// The plugin environment entry value derived from an accumulated plugin
/// sequence: its canonical form, serialized.
pub open spec fn spec_plugins_entry(ps: Seq<Neo4jLabsPlugin>) -> Seq<char> {
    plugins_value(canonical_keys(keys_of(ps)))
}

/// Serializes plugins that are already in canonical order.
pub fn plugins_env_value(sorted: &Vec<Neo4jLabsPlugin>) -> (r: String)
    ensures
        r@ == plugins_value(keys_of(sorted@)),
{
    let mut s = String::new();
    push_char(&mut s, '[');
    let n = sorted.len();
    let mut i: usize = 0;
    proof {
        assert(displays_of(keys_of(sorted@.subrange(0, 0))) =~= Seq::<Seq<char>>::empty());
        assert(s@ =~= seq!['['] + joined(displays_of(keys_of(sorted@.subrange(0, 0)))));
    }
    while i < n
        invariant
            i <= n,
            n == sorted@.len(),
            s@ == seq!['['] + joined(displays_of(keys_of(sorted@.subrange(0, i as int)))),
        decreases n - i,
    {
        if i > 0 {
            push_char(&mut s, ',');
        }
        push_char(&mut s, '"');
        s.append(sorted[i].display_form());
        push_char(&mut s, '"');
        proof {
            let pre = displays_of(keys_of(sorted@.subrange(0, i as int)));
            let post = displays_of(keys_of(sorted@.subrange(0, i as int + 1)));
            assert(post.drop_last() =~= pre);
            assert(post.last() == spec_display(sorted@[i as int]));
            if i == 0 {
                assert(joined(post) =~= quoted(post.last()));
            } else {
                assert(joined(post) =~= joined(pre) + seq![','] + quoted(post.last()));
            }
            assert(s@ =~= seq!['['] + joined(post));
        }
        i = i + 1;
    }
    push_char(&mut s, ']');
    proof {
        assert(sorted@.subrange(0, n as int) =~= sorted@);
        assert(s@ =~= plugins_value(keys_of(sorted@)));
    }
    s
}

} // verus!
