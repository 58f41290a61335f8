//! Registry construction: consumes the parsed, backend-grouped configuration,
//! resolves one default instance per configured kind, invokes the right
//! factory for every instance, and yields either a complete registry or a
//! single fatal construction error — never a partial registry.

use vstd::prelude::*;

use crate::conn::DatabaseInit;
use crate::conn::mysql::MySqlSourceConfig;
use crate::conn::postgres::PostgresSourceConfig;
use crate::conn::redis::RedisSourceConfig;
use crate::conn::sqlite::SqliteSourceConfig;
use crate::database::DbKind;
use crate::database::DbManager;
use crate::database::DefaultEntry;
use crate::database::SourceEntry;
use crate::database::find_default;
use crate::database::find_default_index;
use crate::database::find_index;
use crate::database::find_source;
use crate::database::kind_label;
use crate::database::lemma_find_default_index;
use crate::database::lemma_find_index;
use crate::database::spec_kind_label;
use crate::error::DbError;
use crate::uri::str_eq;

verus! {

/// The names of the default-flagged instances, in declaration order.
pub open spec fn spec_flagged_names<T: DatabaseInit>(l: Seq<T>) -> Seq<Seq<char>>
    decreases l.len(),
{
    if l.len() == 0 {
        Seq::empty()
    } else {
        spec_flagged_names(l.drop_last()) + (if l.last().spec_flagged() {
            seq![l.last().spec_name()]
        } else {
            Seq::<Seq<char>>::empty()
        })
    }
}

/// True when some instance in the list has an empty name.
pub open spec fn spec_has_empty_name<T: DatabaseInit>(l: Seq<T>) -> bool {
    exists|i: int| 0 <= i < l.len() && (#[trigger] l[i]).spec_name().len() == 0
}

/// True when `name` is the name of some instance in the list.
pub open spec fn spec_has_name<T: DatabaseInit>(l: Seq<T>, name: Seq<char>) -> bool {
    exists|i: int| 0 <= i < l.len() && (#[trigger] l[i]).spec_name() == name
}

/// True when the list's configuration is rejected at construction: an empty
/// instance name, or two or more default flags.
pub open spec fn spec_config_bad<T: DatabaseInit>(l: Seq<T>) -> bool {
    spec_has_empty_name(l) || spec_flagged_names(l).len() >= 2
}

/// True when every instance's connection URI is accepted by its backend.
pub open spec fn spec_all_accepted<T: DatabaseInit>(l: Seq<T>) -> bool {
    forall|i: int| 0 <= i < l.len() ==> (#[trigger] l[i]).spec_accepted()
}

/// True when `name` is the name of some instance whose URI the backend
/// rejects.
pub open spec fn spec_failed_name<T: DatabaseInit>(l: Seq<T>, name: Seq<char>) -> bool {
    exists|i: int|
        0 <= i < l.len() && (#[trigger] l[i]).spec_name() == name && !l[i].spec_accepted()
}

/// The resolved default instance name of a non-empty list with at most one
/// flag: the flagged instance when there is exactly one, else the first
/// instance in declaration order.
pub open spec fn spec_default_name<T: DatabaseInit>(l: Seq<T>) -> Seq<char>
    recommends
        l.len() > 0,
{
    if spec_flagged_names(l).len() == 1 {
        spec_flagged_names(l)[0]
    } else {
        l[0].spec_name()
    }
}

/// What the construction error of one kind's list looks like: an empty name
/// gives a validation error; otherwise two or more flags give a
/// multiple-default error listing exactly the flagged names in declaration
/// order.
pub open spec fn spec_kind_error<T: DatabaseInit>(e: DbError, l: Seq<T>) -> bool {
    if spec_has_empty_name(l) {
        e matches DbError::ConfigValidation { db_type } && db_type@ == spec_kind_label(
            T::spec_kind(),
        )
    } else {
        e matches DbError::MultipleDefault { db_type, names } && db_type@ == spec_kind_label(
            T::spec_kind(),
        ) && names.deep_view() == spec_flagged_names(l)
    }
}

/// Every flagged name is the name of a flagged instance.
pub proof fn lemma_flagged_names_are_names<T: DatabaseInit>(l: Seq<T>, k: int)
    requires
        0 <= k < spec_flagged_names(l).len(),
    ensures
        exists|i: int|
            0 <= i < l.len() && (#[trigger] l[i]).spec_flagged() && l[i].spec_name()
                == spec_flagged_names(l)[k],
    decreases l.len(),
{
    if l.len() > 0 {
        let prefix = spec_flagged_names(l.drop_last());
        if k < prefix.len() {
            lemma_flagged_names_are_names(l.drop_last(), k);
            let i = choose|i: int|
                0 <= i < l.drop_last().len() && (#[trigger] l.drop_last()[i]).spec_flagged()
                    && l.drop_last()[i].spec_name() == prefix[k];
            assert(l[i] == l.drop_last()[i]);
            assert(l[i].spec_flagged() && l[i].spec_name() == spec_flagged_names(l)[k]);
        } else {
            assert(l.last().spec_flagged());
            assert(l[l.len() - 1].spec_flagged() && l[l.len() - 1].spec_name()
                == spec_flagged_names(l)[k]);
        }
    }
}

/// A list without flagged instances has no flagged names.
pub proof fn lemma_no_flags_no_names<T: DatabaseInit>(l: Seq<T>)
    requires
        forall|i: int| 0 <= i < l.len() ==> !(#[trigger] l[i]).spec_flagged(),
    ensures
        spec_flagged_names(l).len() == 0,
    decreases l.len(),
{
    if l.len() > 0 {
        assert forall|i: int| 0 <= i < l.drop_last().len() implies !(
        #[trigger] l.drop_last()[i]).spec_flagged() by {
            assert(l.drop_last()[i] == l[i]);
        }
        lemma_no_flags_no_names(l.drop_last());
        assert(!l.last().spec_flagged());
    }
}

/// With exactly one flagged instance, the flagged names are exactly its name.
pub proof fn lemma_single_flag_names<T: DatabaseInit>(l: Seq<T>, i: int)
    requires
        0 <= i < l.len(),
        l[i].spec_flagged(),
        forall|j: int| 0 <= j < l.len() && j != i ==> !(#[trigger] l[j]).spec_flagged(),
    ensures
        spec_flagged_names(l) == seq![l[i].spec_name()],
    decreases l.len(),
{
    if i == l.len() - 1 {
        assert forall|j: int| 0 <= j < l.drop_last().len() implies !(
        #[trigger] l.drop_last()[j]).spec_flagged() by {
            assert(l.drop_last()[j] == l[j]);
        }
        lemma_no_flags_no_names(l.drop_last());
        assert(l.last() == l[i]);
        assert(spec_flagged_names(l) =~= seq![l[i].spec_name()]);
    } else {
        assert(l.drop_last()[i] == l[i]);
        assert forall|j: int| 0 <= j < l.drop_last().len() && j != i implies !(
        #[trigger] l.drop_last()[j]).spec_flagged() by {
            assert(l.drop_last()[j] == l[j]);
        }
        lemma_single_flag_names(l.drop_last(), i);
        assert(!l.last().spec_flagged());
        assert(spec_flagged_names(l) =~= seq![l[i].spec_name()]);
    }
}

/// The resolved default name is always the name of some instance.
pub proof fn lemma_default_name_is_a_name<T: DatabaseInit>(l: Seq<T>)
    requires
        l.len() > 0,
    ensures
        spec_has_name(l, spec_default_name(l)),
{
    if spec_flagged_names(l).len() == 1 {
        lemma_flagged_names_are_names(l, 0);
    } else {
        assert(l[0].spec_name() == spec_default_name(l));
    }
}

/// Validates one kind's list and resolves its default instance name:
/// `Ok(None)` for an empty list, `Ok(Some(name))` otherwise, and an error
/// exactly when a name is empty or two or more instances are flagged.
fn resolve_default<T: DatabaseInit>(list: &Vec<T>) -> (r: Result<Option<String>, DbError>)
    ensures
        r is Err <==> spec_config_bad(list@),
        r matches Err(e) ==> spec_kind_error::<T>(e, list@),
        r matches Ok(o) ==> (o is Some <==> list@.len() > 0),
        r matches Ok(o) ==> (o matches Some(nm) ==> nm@ == spec_default_name(list@)),
{
    let ghost lv = list@;
    let mut i: usize = 0;
    while i < list.len()
        invariant
            lv == list@,
            i <= lv.len(),
            forall|j: int| 0 <= j < i ==> (#[trigger] lv[j]).spec_name().len() > 0,
        decreases lv.len() - i,
    {
        if list[i].instance_name().as_str().is_empty() {
            return Err(DbError::ConfigValidation { db_type: kind_label(T::kind_tag()) });
        }
        i = i + 1;
    }
    let mut flagged: Vec<String> = Vec::new();
    let mut i: usize = 0;
    proof {
        assert(lv.take(0) =~= Seq::<T>::empty());
        assert(flagged.deep_view() =~= spec_flagged_names(lv.take(0)));
    }
    while i < list.len()
        invariant
            lv == list@,
            i <= lv.len(),
            flagged.deep_view() == spec_flagged_names(lv.take(i as int)),
        decreases lv.len() - i,
    {
        if list[i].flagged_default() {
            flagged.push(list[i].instance_name().clone());
        }
        proof {
            let t = lv.take((i + 1) as int);
            assert(t.drop_last() =~= lv.take(i as int));
            assert(t.last() == lv[i as int]);
            assert(flagged.deep_view() =~= spec_flagged_names(t));
        }
        i = i + 1;
    }
    proof {
        assert(lv.take(lv.len() as int) =~= lv);
    }
    if list.len() == 0 {
        return Ok(None);
    }
    if flagged.len() == 0 {
        return Ok(Some(list[0].instance_name().clone()));
    }
    if flagged.len() == 1 {
        let nm = flagged[0].clone();
        proof {
            assert(flagged.deep_view()[0] == flagged@[0]@);
        }
        return Ok(Some(nm));
    }
    Err(DbError::MultipleDefault { db_type: kind_label(T::kind_tag()), names: flagged })
}

/// True when some entry at or after position `from` carries `name`.
pub open spec fn seg_has_name(s: Seq<SourceEntry>, from: int, name: Seq<char>) -> bool {
    exists|j: int| from <= j < s.len() && (#[trigger] s[j]).name@ == name
}

/// Invokes the factory for every instance of one kind, in declaration order,
/// and appends the results as registry entries keyed by (kind, name). A
/// later instance with the same name replaces the earlier entry (so the
/// appended segment's names are unique); a factory failure aborts the build
/// immediately, and happens exactly on the first instance whose URI the
/// backend rejects.
fn init_kind<T: DatabaseInit>(
    list: &Vec<T>,
    rt: &tokio::runtime::Handle,
    sources: &mut Vec<SourceEntry>,
) -> (r: Result<(), DbError>)
    ensures
        final(sources)@.len() >= old(sources)@.len(),
        final(sources)@.take(old(sources)@.len() as int) == old(sources)@,
        spec_all_accepted(list@) ==> r is Ok,
        r matches Err(e) ==> e matches DbError::BackendInit { name, .. } && spec_failed_name(
            list@,
            name@,
        ),
        r is Ok ==> ({
            let s = final(sources)@;
            let n0 = old(sources)@.len() as int;
            &&& forall|j: int|
                n0 <= j < s.len() ==> (#[trigger] s[j]).kind == T::spec_kind()
                    && s[j].source.spec_kind() == Some(T::spec_kind()) && spec_has_name(
                    list@,
                    s[j].name@,
                )
            &&& forall|j: int, k: int|
                #![trigger s[j], s[k]]
                n0 <= j < k < s.len() ==> s[j].name@ != s[k].name@
            &&& forall|m: int|
                0 <= m < list@.len() ==> seg_has_name(s, n0, (#[trigger] list@[m]).spec_name())
        }),
{
    let seg_start = sources.len();
    let ghost orig = sources@;
    let ghost lv = list@;
    let mut i: usize = 0;
    while i < list.len()
        invariant
            lv == list@,
            i <= lv.len(),
            orig.len() == seg_start,
            orig == old(sources)@,
            sources@.len() >= seg_start,
            sources@.take(seg_start as int) == orig,
            forall|j: int|
                seg_start <= j < sources@.len() ==> (#[trigger] sources@[j]).kind == T::spec_kind()
                    && sources@[j].source.spec_kind() == Some(T::spec_kind()) && spec_has_name(
                    lv,
                    sources@[j].name@,
                ),
            forall|j: int, k: int|
                #![trigger sources@[j], sources@[k]]
                seg_start <= j < k < sources@.len() ==> sources@[j].name@ != sources@[k].name@,
            forall|m: int|
                0 <= m < i ==> seg_has_name(sources@, seg_start as int, (#[trigger] lv[m]).spec_name()),
        decreases lv.len() - i,
    {
        let cfg = &list[i];
        let ds = match cfg.init_datasource(rt) {
            Ok(ds) => ds,
            Err(e) => {
                return Err(e);
            },
        };
        let name = cfg.instance_name().clone();
        let mut j: usize = seg_start;
        let mut pos: usize = sources.len();
        while j < sources.len()
            invariant
                seg_start <= j <= sources@.len(),
                pos == sources@.len() || (seg_start <= pos < sources@.len() && sources@[pos as int].name@
                    == name@),
                pos == sources@.len() ==> forall|k: int|
                    seg_start <= k < j ==> (#[trigger] sources@[k]).name@ != name@,
            decreases sources@.len() - j,
        {
            if pos == sources.len() && str_eq(sources[j].name.as_str(), name.as_str()) {
                pos = j;
            }
            j = j + 1;
        }
        let ghost before = sources@;
        let entry = SourceEntry { kind: T::kind_tag(), name, source: ds };
        if pos < sources.len() {
            sources[pos] = entry;
            proof {
                assert(sources@ == before.update(pos as int, entry));
                assert(sources@.take(seg_start as int) =~= orig);
                assert(forall|j: int|
                    0 <= j < sources@.len() ==> (#[trigger] sources@[j]).name@ == before[j].name@);
                assert forall|m: int| 0 <= m <= i implies seg_has_name(
                    sources@,
                    seg_start as int,
                    (#[trigger] lv[m]).spec_name(),
                ) by {
                    if m < i {
                        let w = choose|w: int|
                            seg_start <= w < before.len() && (#[trigger] before[w]).name@
                                == lv[m].spec_name();
                        assert(sources@[w].name@ == lv[m].spec_name());
                    } else {
                        assert(sources@[pos as int].name@ == lv[i as int].spec_name());
                    }
                }
            }
        } else {
            sources.push(entry);
            proof {
                assert(sources@ == before.push(entry));
                assert(sources@.take(seg_start as int) =~= orig);
                assert forall|m: int| 0 <= m <= i implies seg_has_name(
                    sources@,
                    seg_start as int,
                    (#[trigger] lv[m]).spec_name(),
                ) by {
                    if m < i {
                        let w = choose|w: int|
                            seg_start <= w < before.len() && (#[trigger] before[w]).name@
                                == lv[m].spec_name();
                        assert(sources@[w].name@ == lv[m].spec_name());
                    } else {
                        assert(sources@[before.len() as int].name@ == lv[i as int].spec_name());
                    }
                }
            }
        }
        i = i + 1;
    }
    Ok(())
}

/// What a successful build guarantees for one backend kind's instance list:
/// the recorded default is exactly the resolved default name, and the
/// registry holds an entry of this kind for exactly the configured names.
pub open spec fn kind_built<T: DatabaseInit>(m: DbManager, l: Seq<T>) -> bool {
    &&& find_default(m.spec_defaults(), T::spec_kind()) == (if l.len() > 0 {
        Some(spec_default_name(l))
    } else {
        None::<Seq<char>>
    })
    &&& forall|i: int|
        0 <= i < l.len() ==> find_index(m.spec_sources(), T::spec_kind(), (#[trigger] l[i]).spec_name())
            != -1
    &&& forall|n: Seq<char>|
        #[trigger] find_index(m.spec_sources(), T::spec_kind(), n) != -1 ==> spec_has_name(l, n)
}

/// Lookup facts for one kind whose entries occupy the positions `lo..hi` of
/// the entry table: every configured name is found under this kind, only
/// configured names are found, and the kind's resolved default name (when
/// the kind is configured at all) is found as well.
proof fn lemma_segment_lookup<T: DatabaseInit>(
    sv: Seq<SourceEntry>,
    lo: int,
    hi: int,
    l: Seq<T>,
    dname: Option<Seq<char>>,
)
    requires
        0 <= lo <= hi <= sv.len(),
        forall|j: int|
            lo <= j < hi ==> (#[trigger] sv[j]).kind == T::spec_kind() && spec_has_name(
                l,
                sv[j].name@,
            ),
        forall|j: int|
            0 <= j < sv.len() && !(lo <= j < hi) ==> (#[trigger] sv[j]).kind != T::spec_kind(),
        forall|m: int|
            0 <= m < l.len() ==> exists|w: int|
                lo <= w < hi && (#[trigger] sv[w]).name@ == (#[trigger] l[m]).spec_name(),
        dname == (if l.len() > 0 {
            Some(spec_default_name(l))
        } else {
            None::<Seq<char>>
        }),
    ensures
        forall|i: int|
            0 <= i < l.len() ==> find_index(sv, T::spec_kind(), (#[trigger] l[i]).spec_name())
                != -1,
        forall|n: Seq<char>|
            #[trigger] find_index(sv, T::spec_kind(), n) != -1 ==> spec_has_name(l, n),
        dname matches Some(nm) ==> find_index(sv, T::spec_kind(), nm) != -1,
{
    assert forall|i: int| 0 <= i < l.len() implies find_index(
        sv,
        T::spec_kind(),
        (#[trigger] l[i]).spec_name(),
    ) != -1 by {
        let w = choose|w: int| lo <= w < hi && (#[trigger] sv[w]).name@ == l[i].spec_name();
        lemma_find_index(sv, T::spec_kind(), l[i].spec_name());
        assert(sv[w].kind == T::spec_kind() && sv[w].name@ == l[i].spec_name());
    }
    assert forall|n: Seq<char>| #[trigger] find_index(sv, T::spec_kind(), n) != -1 implies
        spec_has_name(l, n) by {
        lemma_find_index(sv, T::spec_kind(), n);
        let idx = find_index(sv, T::spec_kind(), n);
        assert(sv[idx].kind == T::spec_kind());
        assert(lo <= idx < hi);
        assert(spec_has_name(l, sv[idx].name@));
    }
    if dname is Some {
        assert(l.len() > 0);
        lemma_default_name_is_a_name(l);
        let m = choose|m: int|
            0 <= m < l.len() && (#[trigger] l[m]).spec_name() == spec_default_name(l);
        assert(find_index(sv, T::spec_kind(), l[m].spec_name()) != -1);
    }
}

/// How `find_default_index` changes when one entry is appended.
proof fn lemma_find_default_push(d: Seq<DefaultEntry>, e: DefaultEntry, k: DbKind)
    ensures
        find_default_index(d, k) != -1 ==> find_default_index(d.push(e), k) == find_default_index(
            d,
            k,
        ),
        find_default_index(d, k) == -1 && e.kind == k ==> find_default_index(d.push(e), k)
            == d.len(),
        find_default_index(d, k) == -1 && e.kind != k ==> find_default_index(d.push(e), k) == -1,
    decreases d.len(),
{
    if d.len() == 0 {
        assert(d.push(e)[0] == e);
        assert(d.push(e).drop_first() =~= Seq::<DefaultEntry>::empty());
        assert(find_default_index(Seq::<DefaultEntry>::empty(), k) == -1);
        if e.kind == k {
            assert(find_default_index(d.push(e), k) == 0);
        }
    } else {
        assert(d.push(e).drop_first() =~= d.drop_first().push(e));
        lemma_find_default_push(d.drop_first(), e, k);
        assert(d.push(e)[0] == d[0]);
        if d[0].kind == k {
            assert(find_default_index(d, k) == 0);
        } else {
            let rt = find_default_index(d.drop_first(), k);
            lemma_find_default_index(d.drop_first(), k);
            assert(find_default_index(d, k) == (if rt == -1 {
                -1
            } else {
                rt + 1
            }));
            let ru = find_default_index(d.drop_first().push(e), k);
            assert(find_default_index(d.push(e), k) == (if ru == -1 {
                -1
            } else {
                ru + 1
            }));
            if rt == -1 && e.kind == k {
                assert(ru == d.drop_first().len());
                assert(find_default_index(d.push(e), k) == d.len());
            }
        }
    }
}

/// Collects one resolved default entry per configured kind, in processing
/// order; the result records exactly the kinds whose argument is present,
/// each once, under the given name.
fn build_defaults(
    d_sqlite: Option<String>,
    d_mysql: Option<String>,
    d_postgres: Option<String>,
    d_redis: Option<String>,
) -> (r: Vec<DefaultEntry>)
    ensures
        forall|a: int, b: int|
            #![trigger r@[a], r@[b]]
            0 <= a < b < r@.len() ==> r@[a].kind != r@[b].kind,
        find_default(r@, DbKind::Sqlite) == (match d_sqlite {
            Some(nm) => Some(nm@),
            None => None::<Seq<char>>,
        }),
        find_default(r@, DbKind::Mysql) == (match d_mysql {
            Some(nm) => Some(nm@),
            None => None::<Seq<char>>,
        }),
        find_default(r@, DbKind::Postgres) == (match d_postgres {
            Some(nm) => Some(nm@),
            None => None::<Seq<char>>,
        }),
        find_default(r@, DbKind::Redis) == (match d_redis {
            Some(nm) => Some(nm@),
            None => None::<Seq<char>>,
        }),
        d_sqlite is None && d_mysql is None && d_postgres is None && d_redis is None ==> r@.len()
            == 0,
{
    let mut r: Vec<DefaultEntry> = Vec::new();
    proof {
        assert(forall|k: DbKind| #[trigger] find_default_index(r@, k) == -1);
    }
    if let Some(nm) = d_sqlite {
        let ghost pre = r@;
        let ghost e = DefaultEntry { kind: DbKind::Sqlite, name: nm };
        r.push(DefaultEntry { kind: DbKind::Sqlite, name: nm });
        proof {
            assert(r@ == pre.push(e));
            assert forall|k: DbKind| true implies #[trigger] find_default_index(r@, k) == (if k
                == DbKind::Sqlite {
                pre.len() as int
            } else {
                find_default_index(pre, k)
            }) by {
                lemma_find_default_push(pre, e, k);
            }
        }
    }
    proof {
        assert(find_default(r@, DbKind::Sqlite) == (match d_sqlite {
            Some(n2) => Some(n2@),
            None => None::<Seq<char>>,
        }));
        assert(find_default_index(r@, DbKind::Mysql) == -1);
        assert(find_default_index(r@, DbKind::Postgres) == -1);
        assert(find_default_index(r@, DbKind::Redis) == -1);
        assert(forall|a: int, b: int|
            #![trigger r@[a], r@[b]]
            0 <= a < b < r@.len() ==> r@[a].kind != r@[b].kind);
    }
    if let Some(nm) = d_mysql {
        let ghost pre = r@;
        let ghost e = DefaultEntry { kind: DbKind::Mysql, name: nm };
        r.push(DefaultEntry { kind: DbKind::Mysql, name: nm });
        proof {
            assert(r@ == pre.push(e));
            assert forall|k: DbKind| true implies #[trigger] find_default_index(r@, k) == (if k
                == DbKind::Mysql {
                pre.len() as int
            } else {
                find_default_index(pre, k)
            }) by {
                lemma_find_default_push(pre, e, k);
            }
            lemma_find_default_index(pre, DbKind::Mysql);
            assert forall|a: int, b: int|
                #![trigger r@[a], r@[b]]
                0 <= a < b < r@.len() implies r@[a].kind != r@[b].kind by {
                if b == pre.len() as int {
                    assert(pre[a].kind != DbKind::Mysql);
                } else {
                    assert(r@[a] == pre[a] && r@[b] == pre[b]);
                }
            }
        }
    }
    proof {
        assert(find_default(r@, DbKind::Sqlite) == (match d_sqlite {
            Some(n2) => Some(n2@),
            None => None::<Seq<char>>,
        }));
        assert(find_default(r@, DbKind::Mysql) == (match d_mysql {
            Some(n2) => Some(n2@),
            None => None::<Seq<char>>,
        }));
        assert(find_default_index(r@, DbKind::Postgres) == -1);
        assert(find_default_index(r@, DbKind::Redis) == -1);
        assert(forall|a: int, b: int|
            #![trigger r@[a], r@[b]]
            0 <= a < b < r@.len() ==> r@[a].kind != r@[b].kind);
    }
    if let Some(nm) = d_postgres {
        let ghost pre = r@;
        let ghost e = DefaultEntry { kind: DbKind::Postgres, name: nm };
        r.push(DefaultEntry { kind: DbKind::Postgres, name: nm });
        proof {
            assert(r@ == pre.push(e));
            assert forall|k: DbKind| true implies #[trigger] find_default_index(r@, k) == (if k
                == DbKind::Postgres {
                pre.len() as int
            } else {
                find_default_index(pre, k)
            }) by {
                lemma_find_default_push(pre, e, k);
            }
            lemma_find_default_index(pre, DbKind::Postgres);
            assert forall|a: int, b: int|
                #![trigger r@[a], r@[b]]
                0 <= a < b < r@.len() implies r@[a].kind != r@[b].kind by {
                if b == pre.len() as int {
                    assert(pre[a].kind != DbKind::Postgres);
                } else {
                    assert(r@[a] == pre[a] && r@[b] == pre[b]);
                }
            }
        }
    }
    proof {
        assert(find_default(r@, DbKind::Sqlite) == (match d_sqlite {
            Some(n2) => Some(n2@),
            None => None::<Seq<char>>,
        }));
        assert(find_default(r@, DbKind::Mysql) == (match d_mysql {
            Some(n2) => Some(n2@),
            None => None::<Seq<char>>,
        }));
        assert(find_default(r@, DbKind::Postgres) == (match d_postgres {
            Some(n2) => Some(n2@),
            None => None::<Seq<char>>,
        }));
        assert(find_default_index(r@, DbKind::Redis) == -1);
        assert(forall|a: int, b: int|
            #![trigger r@[a], r@[b]]
            0 <= a < b < r@.len() ==> r@[a].kind != r@[b].kind);
    }
    if let Some(nm) = d_redis {
        let ghost pre = r@;
        let ghost e = DefaultEntry { kind: DbKind::Redis, name: nm };
        r.push(DefaultEntry { kind: DbKind::Redis, name: nm });
        proof {
            assert(r@ == pre.push(e));
            assert forall|k: DbKind| true implies #[trigger] find_default_index(r@, k) == (if k
                == DbKind::Redis {
                pre.len() as int
            } else {
                find_default_index(pre, k)
            }) by {
                lemma_find_default_push(pre, e, k);
            }
            lemma_find_default_index(pre, DbKind::Redis);
            assert forall|a: int, b: int|
                #![trigger r@[a], r@[b]]
                0 <= a < b < r@.len() implies r@[a].kind != r@[b].kind by {
                if b == pre.len() as int {
                    assert(pre[a].kind != DbKind::Redis);
                } else {
                    assert(r@[a] == pre[a] && r@[b] == pre[b]);
                }
            }
        }
    }
    proof {
        assert(find_default(r@, DbKind::Redis) == (match d_redis {
            Some(n2) => Some(n2@),
            None => None::<Seq<char>>,
        }));
    }
    r
}

/// Law: in a configuration where no instance of a kind is flagged as
/// default, the kind's default resolves to the first instance in declaration
/// order, and default lookup on the built registry reaches a source of that
/// kind registered under the first instance's name.
pub proof fn lemma_default_unflagged_is_first<T: DatabaseInit>(m: DbManager, l: Seq<T>)
    requires
        m.wf(),
        kind_built(m, l),
        l.len() > 0,
        forall|i: int| 0 <= i < l.len() ==> !(#[trigger] l[i]).spec_flagged(),
    ensures
        find_default(m.spec_defaults(), T::spec_kind()) == Some(l[0].spec_name()),
        find_source(m.spec_sources(), T::spec_kind(), l[0].spec_name()) matches Some(src)
            && src.spec_kind() == Some(T::spec_kind()),
{
    lemma_no_flags_no_names(l);
    lemma_find_index(m.spec_sources(), T::spec_kind(), l[0].spec_name());
}

/// Law: in a configuration where exactly one instance of a kind is flagged
/// as default, the kind's default resolves to that instance regardless of
/// its position, and default lookup on the built registry reaches a source
/// of that kind registered under that instance's name.
pub proof fn lemma_default_single_flag<T: DatabaseInit>(m: DbManager, l: Seq<T>, i: int)
    requires
        m.wf(),
        kind_built(m, l),
        0 <= i < l.len(),
        l[i].spec_flagged(),
        forall|j: int| 0 <= j < l.len() && j != i ==> !(#[trigger] l[j]).spec_flagged(),
    ensures
        find_default(m.spec_defaults(), T::spec_kind()) == Some(l[i].spec_name()),
        find_source(m.spec_sources(), T::spec_kind(), l[i].spec_name()) matches Some(src)
            && src.spec_kind() == Some(T::spec_kind()),
{
    lemma_single_flag_names(l, i);
    lemma_find_index(m.spec_sources(), T::spec_kind(), l[i].spec_name());
}

/// Assembles the well-formedness and per-kind lookup facts of the finished
/// tables from what each construction phase left behind: the three
/// snapshots are prefixes of the final entry table, each kind's entries
/// occupy one segment of it, and the default table records one resolved
/// name per configured kind.
#[verifier::rlimit(100)]
proof fn lemma_tables_well_formed(
    sv: Seq<SourceEntry>,
    dv: Seq<DefaultEntry>,
    snap1: Seq<SourceEntry>,
    snap2: Seq<SourceEntry>,
    snap3: Seq<SourceEntry>,
    ls: Seq<SqliteSourceConfig>,
    lm: Seq<MySqlSourceConfig>,
    lp: Seq<PostgresSourceConfig>,
    lr: Seq<RedisSourceConfig>,
    dn_sqlite: Option<Seq<char>>,
    dn_mysql: Option<Seq<char>>,
    dn_postgres: Option<Seq<char>>,
    dn_redis: Option<Seq<char>>,
)
    requires
        snap1.len() <= snap2.len() <= snap3.len() <= sv.len(),
        snap2.take(snap1.len() as int) == snap1,
        snap3.take(snap2.len() as int) == snap2,
        sv.take(snap3.len() as int) == snap3,
        forall|j: int|
            0 <= j < snap1.len() ==> (#[trigger] snap1[j]).kind == DbKind::Sqlite
                && snap1[j].source.spec_kind() == Some(DbKind::Sqlite) && spec_has_name(
                ls,
                snap1[j].name@,
            ),
        forall|j: int, k: int|
            #![trigger snap1[j], snap1[k]]
            0 <= j < k < snap1.len() ==> snap1[j].name@ != snap1[k].name@,
        forall|m: int| 0 <= m < ls.len() ==> seg_has_name(snap1, 0, (#[trigger] ls[m]).spec_name()),
        forall|j: int|
            snap1.len() <= j < snap2.len() ==> (#[trigger] snap2[j]).kind == DbKind::Mysql
                && snap2[j].source.spec_kind() == Some(DbKind::Mysql) && spec_has_name(
                lm,
                snap2[j].name@,
            ),
        forall|j: int, k: int|
            #![trigger snap2[j], snap2[k]]
            snap1.len() <= j < k < snap2.len() ==> snap2[j].name@ != snap2[k].name@,
        forall|m: int|
            0 <= m < lm.len() ==> seg_has_name(
                snap2,
                snap1.len() as int,
                (#[trigger] lm[m]).spec_name(),
            ),
        forall|j: int|
            snap2.len() <= j < snap3.len() ==> (#[trigger] snap3[j]).kind == DbKind::Postgres
                && snap3[j].source.spec_kind() == Some(DbKind::Postgres) && spec_has_name(
                lp,
                snap3[j].name@,
            ),
        forall|j: int, k: int|
            #![trigger snap3[j], snap3[k]]
            snap2.len() <= j < k < snap3.len() ==> snap3[j].name@ != snap3[k].name@,
        forall|m: int|
            0 <= m < lp.len() ==> seg_has_name(
                snap3,
                snap2.len() as int,
                (#[trigger] lp[m]).spec_name(),
            ),
        forall|j: int|
            snap3.len() <= j < sv.len() ==> (#[trigger] sv[j]).kind == DbKind::Redis
                && sv[j].source.spec_kind() == Some(DbKind::Redis) && spec_has_name(
                lr,
                sv[j].name@,
            ),
        forall|j: int, k: int|
            #![trigger sv[j], sv[k]]
            snap3.len() <= j < k < sv.len() ==> sv[j].name@ != sv[k].name@,
        forall|m: int|
            0 <= m < lr.len() ==> seg_has_name(sv, snap3.len() as int, (#[trigger] lr[m]).spec_name()),
        forall|a: int, b: int|
            #![trigger dv[a], dv[b]]
            0 <= a < b < dv.len() ==> dv[a].kind != dv[b].kind,
        find_default(dv, DbKind::Sqlite) == dn_sqlite,
        find_default(dv, DbKind::Mysql) == dn_mysql,
        find_default(dv, DbKind::Postgres) == dn_postgres,
        find_default(dv, DbKind::Redis) == dn_redis,
        dn_sqlite == (if ls.len() > 0 {
            Some(spec_default_name(ls))
        } else {
            None::<Seq<char>>
        }),
        dn_mysql == (if lm.len() > 0 {
            Some(spec_default_name(lm))
        } else {
            None::<Seq<char>>
        }),
        dn_postgres == (if lp.len() > 0 {
            Some(spec_default_name(lp))
        } else {
            None::<Seq<char>>
        }),
        dn_redis == (if lr.len() > 0 {
            Some(spec_default_name(lr))
        } else {
            None::<Seq<char>>
        }),
    ensures
        forall|i: int, j: int|
            #![trigger sv[i], sv[j]]
            0 <= i < j < sv.len() ==> !(sv[i].kind == sv[j].kind && sv[i].name@ == sv[j].name@),
        forall|i: int|
            0 <= i < sv.len() ==> (#[trigger] sv[i]).source.spec_kind() == Some(sv[i].kind),
        forall|t: int| 0 <= t < dv.len() ==> find_index(sv, (#[trigger] dv[t]).kind, dv[t].name@) != -1,
        forall|j: int| 0 <= j < sv.len() ==> find_default_index(dv, (#[trigger] sv[j]).kind) != -1,
        forall|i: int|
            0 <= i < ls.len() ==> find_index(sv, DbKind::Sqlite, (#[trigger] ls[i]).spec_name())
                != -1,
        forall|n: Seq<char>|
            #[trigger] find_index(sv, DbKind::Sqlite, n) != -1 ==> spec_has_name(ls, n),
        forall|i: int|
            0 <= i < lm.len() ==> find_index(sv, DbKind::Mysql, (#[trigger] lm[i]).spec_name())
                != -1,
        forall|n: Seq<char>|
            #[trigger] find_index(sv, DbKind::Mysql, n) != -1 ==> spec_has_name(lm, n),
        forall|i: int|
            0 <= i < lp.len() ==> find_index(sv, DbKind::Postgres, (#[trigger] lp[i]).spec_name())
                != -1,
        forall|n: Seq<char>|
            #[trigger] find_index(sv, DbKind::Postgres, n) != -1 ==> spec_has_name(lp, n),
        forall|i: int|
            0 <= i < lr.len() ==> find_index(sv, DbKind::Redis, (#[trigger] lr[i]).spec_name())
                != -1,
        forall|n: Seq<char>|
            #[trigger] find_index(sv, DbKind::Redis, n) != -1 ==> spec_has_name(lr, n),
        ls.len() == 0 && lm.len() == 0 && lp.len() == 0 && lr.len() == 0 ==> sv.len() == 0
            && dv.len() == 0,
{
    let n1 = snap1.len() as int;
    let n2 = snap2.len() as int;
    let n3 = snap3.len() as int;
    // entries of finished segments are untouched by later appends
    assert forall|j: int| 0 <= j < n3 implies sv[j] == snap3[j] by {
        assert(sv.take(n3)[j] == sv[j]);
    }
    assert forall|j: int| 0 <= j < n2 implies snap3[j] == snap2[j] by {
        assert(snap3.take(n2)[j] == snap3[j]);
    }
    assert forall|j: int| 0 <= j < n1 implies snap2[j] == snap1[j] by {
        assert(snap2.take(n1)[j] == snap2[j]);
    }
    // classification: each segment's entries carry its kind and its
    // configured names
    assert forall|j: int| 0 <= j < n1 implies (#[trigger] sv[j]).kind == DbKind::Sqlite
        && sv[j].source.spec_kind() == Some(DbKind::Sqlite) && spec_has_name(ls, sv[j].name@) by {
        assert(sv[j] == snap1[j]);
    }
    assert forall|j: int| n1 <= j < n2 implies (#[trigger] sv[j]).kind == DbKind::Mysql
        && sv[j].source.spec_kind() == Some(DbKind::Mysql) && spec_has_name(lm, sv[j].name@) by {
        assert(sv[j] == snap2[j]);
    }
    assert forall|j: int| n2 <= j < n3 implies (#[trigger] sv[j]).kind == DbKind::Postgres
        && sv[j].source.spec_kind() == Some(DbKind::Postgres) && spec_has_name(
        lp,
        sv[j].name@,
    ) by {
        assert(sv[j] == snap3[j]);
    }
    assert(forall|j: int|
        n3 <= j < sv.len() ==> (#[trigger] sv[j]).kind == DbKind::Redis && sv[j].source.spec_kind()
            == Some(DbKind::Redis) && spec_has_name(lr, sv[j].name@));
    // names are unique within each segment
    assert forall|j: int, k: int|
        #![trigger sv[j], sv[k]]
        0 <= j < k < n1 implies sv[j].name@ != sv[k].name@ by {
        assert(sv[j] == snap1[j] && sv[k] == snap1[k]);
    }
    assert forall|j: int, k: int|
        #![trigger sv[j], sv[k]]
        n1 <= j < k < n2 implies sv[j].name@ != sv[k].name@ by {
        assert(sv[j] == snap2[j] && sv[k] == snap2[k]);
    }
    assert forall|j: int, k: int|
        #![trigger sv[j], sv[k]]
        n2 <= j < k < n3 implies sv[j].name@ != sv[k].name@ by {
        assert(sv[j] == snap3[j] && sv[k] == snap3[k]);
    }
    // every configured name appears in its kind's segment
    assert forall|m: int| 0 <= m < ls.len() implies exists|w: int|
        0 <= w < n1 && (#[trigger] sv[w]).name@ == (#[trigger] ls[m]).spec_name() by {
        let w0 = choose|w0: int|
            0 <= w0 < snap1.len() && (#[trigger] snap1[w0]).name@ == ls[m].spec_name();
        assert(sv[w0] == snap1[w0]);
        assert(0 <= w0 < n1 && sv[w0].name@ == ls[m].spec_name());
    }
    assert forall|m: int| 0 <= m < lm.len() implies exists|w: int|
        n1 <= w < n2 && (#[trigger] sv[w]).name@ == (#[trigger] lm[m]).spec_name() by {
        let w0 = choose|w0: int|
            n1 <= w0 < snap2.len() && (#[trigger] snap2[w0]).name@ == lm[m].spec_name();
        assert(sv[w0] == snap2[w0]);
        assert(n1 <= w0 < n2 && sv[w0].name@ == lm[m].spec_name());
    }
    assert forall|m: int| 0 <= m < lp.len() implies exists|w: int|
        n2 <= w < n3 && (#[trigger] sv[w]).name@ == (#[trigger] lp[m]).spec_name() by {
        let w0 = choose|w0: int|
            n2 <= w0 < snap3.len() && (#[trigger] snap3[w0]).name@ == lp[m].spec_name();
        assert(sv[w0] == snap3[w0]);
        assert(n2 <= w0 < n3 && sv[w0].name@ == lp[m].spec_name());
    }
    assert(forall|m: int|
        0 <= m < lr.len() ==> exists|w: int|
            n3 <= w < sv.len() && (#[trigger] sv[w]).name@ == (#[trigger] lr[m]).spec_name());
    // per-kind lookup facts
    lemma_segment_lookup::<SqliteSourceConfig>(sv, 0, n1, ls, dn_sqlite);
    lemma_segment_lookup::<MySqlSourceConfig>(sv, n1, n2, lm, dn_mysql);
    lemma_segment_lookup::<PostgresSourceConfig>(sv, n2, n3, lp, dn_postgres);
    lemma_segment_lookup::<RedisSourceConfig>(sv, n3, sv.len() as int, lr, dn_redis);
    // the (kind, name) keys are unique across the whole table
    assert forall|i: int, j: int|
        #![trigger sv[i], sv[j]]
        0 <= i < j < sv.len() implies !(sv[i].kind == sv[j].kind && sv[i].name@ == sv[j].name@) by {
        if sv[i].kind == sv[j].kind {
            assert(sv[i].name@ != sv[j].name@);
        }
    }
    // every default entry resolves to a registered source of its kind
    assert forall|t: int| 0 <= t < dv.len() implies find_index(
        sv,
        (#[trigger] dv[t]).kind,
        dv[t].name@,
    ) != -1 by {
        let kind = dv[t].kind;
        lemma_find_default_index(dv, kind);
        let f = find_default_index(dv, kind);
        assert(f != -1);
        assert(dv[f].kind == kind);
        assert(f == t);
        match kind {
            DbKind::Sqlite => {
                assert(dn_sqlite == Some(dv[t].name@));
            },
            DbKind::Mysql => {
                assert(dn_mysql == Some(dv[t].name@));
            },
            DbKind::Postgres => {
                assert(dn_postgres == Some(dv[t].name@));
            },
            DbKind::Redis => {
                assert(dn_redis == Some(dv[t].name@));
            },
        }
    }
    // every kind with a registered source has a default entry
    assert forall|j: int| 0 <= j < sv.len() implies find_default_index(
        dv,
        (#[trigger] sv[j]).kind,
    ) != -1 by {
        lemma_find_default_index(dv, sv[j].kind);
        if j < n1 {
            assert(spec_has_name(ls, sv[j].name@));
            assert(ls.len() > 0);
            assert(find_default(dv, DbKind::Sqlite) is Some);
        } else if j < n2 {
            assert(spec_has_name(lm, sv[j].name@));
            assert(lm.len() > 0);
            assert(find_default(dv, DbKind::Mysql) is Some);
        } else if j < n3 {
            assert(spec_has_name(lp, sv[j].name@));
            assert(lp.len() > 0);
            assert(find_default(dv, DbKind::Postgres) is Some);
        } else {
            assert(spec_has_name(lr, sv[j].name@));
            assert(lr.len() > 0);
            assert(find_default(dv, DbKind::Redis) is Some);
        }
    }
    // an entirely empty configuration leaves both tables empty
    if ls.len() == 0 && lm.len() == 0 && lp.len() == 0 && lr.len() == 0 {
        assert(snap1.len() == 0) by {
            if snap1.len() > 0 {
                assert(spec_has_name(ls, snap1[0].name@));
            }
        }
        assert(snap2.len() == snap1.len()) by {
            if snap2.len() > snap1.len() {
                assert(spec_has_name(lm, snap2[snap1.len() as int].name@));
            }
        }
        assert(snap3.len() == snap2.len()) by {
            if snap3.len() > snap2.len() {
                assert(spec_has_name(lp, snap3[snap2.len() as int].name@));
            }
        }
        assert(sv.len() == snap3.len()) by {
            if sv.len() > snap3.len() {
                assert(spec_has_name(lr, sv[snap3.len() as int].name@));
            }
        }
        assert(dv.len() == 0) by {
            if dv.len() > 0 {
                lemma_find_default_index(dv, dv[0].kind);
                match dv[0].kind {
                    DbKind::Sqlite => {
                        assert(find_default(dv, DbKind::Sqlite) is Some);
                    },
                    DbKind::Mysql => {
                        assert(find_default(dv, DbKind::Mysql) is Some);
                    },
                    DbKind::Postgres => {
                        assert(find_default(dv, DbKind::Postgres) is Some);
                    },
                    DbKind::Redis => {
                        assert(find_default(dv, DbKind::Redis) is Some);
                    },
                }
            }
        }
    }
}

/// The parsed, backend-grouped configuration: one list of instance records
/// per backend kind, in the fixed processing order.
pub struct MultiDataSourceConfig {
    pub sqlite: Vec<SqliteSourceConfig>,
    pub mysql: Vec<MySqlSourceConfig>,
    pub postgres: Vec<PostgresSourceConfig>,
    pub redis: Vec<RedisSourceConfig>,
}

impl MultiDataSourceConfig {
    /// Builds the registry, within the given runtime context (pool creation
    /// spawns maintenance tasks): validates every kind's defaults first (so
    /// a configuration error always wins over a factory failure), then
    /// invokes the factory for every instance in declaration order, and
    /// publishes the finished tables. Construction either fully succeeds —
    /// owed whenever the configuration is well-formed and every instance's
    /// URI is accepted — with every registry invariant established, or
    /// fails atomically with the first error; no partial registry is ever
    /// returned.
    #[verifier::rlimit(100)]
    pub fn into_data_sources(self, rt: &tokio::runtime::Handle) -> (r: Result<DbManager, DbError>)
        ensures
            (spec_config_bad(self.sqlite@) || spec_config_bad(self.mysql@) || spec_config_bad(
                self.postgres@,
            ) || spec_config_bad(self.redis@)) ==> r is Err,
            spec_config_bad(self.sqlite@) ==> (r matches Err(e) && spec_kind_error::<
                SqliteSourceConfig,
            >(e, self.sqlite@)),
            !spec_config_bad(self.sqlite@) && spec_config_bad(self.mysql@) ==> (r matches Err(e)
                && spec_kind_error::<MySqlSourceConfig>(e, self.mysql@)),
            !spec_config_bad(self.sqlite@) && !spec_config_bad(self.mysql@) && spec_config_bad(
                self.postgres@,
            ) ==> (r matches Err(e) && spec_kind_error::<PostgresSourceConfig>(e, self.postgres@)),
            !spec_config_bad(self.sqlite@) && !spec_config_bad(self.mysql@) && !spec_config_bad(
                self.postgres@,
            ) && spec_config_bad(self.redis@) ==> (r matches Err(e) && spec_kind_error::<
                RedisSourceConfig,
            >(e, self.redis@)),
            r matches Err(e) ==> e matches DbError::ConfigValidation { .. } || e matches DbError::MultipleDefault { .. }
                || e matches DbError::BackendInit { .. },
            r matches Err(e) ==> (e matches DbError::BackendInit { name, .. } ==> spec_failed_name(
                self.sqlite@,
                name@,
            ) || spec_failed_name(self.mysql@, name@) || spec_failed_name(self.postgres@, name@)
                || spec_failed_name(self.redis@, name@)),
            !spec_config_bad(self.sqlite@) && !spec_config_bad(self.mysql@) && !spec_config_bad(
                self.postgres@,
            ) && !spec_config_bad(self.redis@) ==> (r matches Err(e) ==> e matches DbError::BackendInit { .. }),
            !spec_config_bad(self.sqlite@) && !spec_config_bad(self.mysql@) && !spec_config_bad(
                self.postgres@,
            ) && !spec_config_bad(self.redis@) && spec_all_accepted(self.sqlite@)
                && spec_all_accepted(self.mysql@) && spec_all_accepted(self.postgres@)
                && spec_all_accepted(self.redis@) ==> r is Ok,
            self.sqlite@.len() == 0 && self.mysql@.len() == 0 && self.postgres@.len() == 0
                && self.redis@.len() == 0 ==> (r matches Ok(m) && m.spec_sources().len() == 0
                && m.spec_defaults().len() == 0),
            r matches Ok(m) ==> m.wf(),
            r matches Ok(m) ==> kind_built(m, self.sqlite@) && kind_built(m, self.mysql@)
                && kind_built(m, self.postgres@) && kind_built(m, self.redis@),
    {
        let d_sqlite = match resolve_default(&self.sqlite) {
            Ok(o) => o,
            Err(e) => {
                return Err(e);
            },
        };
        let d_mysql = match resolve_default(&self.mysql) {
            Ok(o) => o,
            Err(e) => {
                return Err(e);
            },
        };
        let d_postgres = match resolve_default(&self.postgres) {
            Ok(o) => o,
            Err(e) => {
                return Err(e);
            },
        };
        let d_redis = match resolve_default(&self.redis) {
            Ok(o) => o,
            Err(e) => {
                return Err(e);
            },
        };
        let mut sources: Vec<SourceEntry> = Vec::new();
        match init_kind(&self.sqlite, rt, &mut sources) {
            Ok(_) => {},
            Err(e) => {
                return Err(e);
            },
        }
        let ghost snap1 = sources@;
        match init_kind(&self.mysql, rt, &mut sources) {
            Ok(_) => {},
            Err(e) => {
                return Err(e);
            },
        }
        let ghost snap2 = sources@;
        match init_kind(&self.postgres, rt, &mut sources) {
            Ok(_) => {},
            Err(e) => {
                return Err(e);
            },
        }
        let ghost snap3 = sources@;
        match init_kind(&self.redis, rt, &mut sources) {
            Ok(_) => {},
            Err(e) => {
                return Err(e);
            },
        }
        let ghost dn_sqlite: Option<Seq<char>> = match &d_sqlite {
            Some(nm) => Some(nm@),
            None => None,
        };
        let ghost dn_mysql: Option<Seq<char>> = match &d_mysql {
            Some(nm) => Some(nm@),
            None => None,
        };
        let ghost dn_postgres: Option<Seq<char>> = match &d_postgres {
            Some(nm) => Some(nm@),
            None => None,
        };
        let ghost dn_redis: Option<Seq<char>> = match &d_redis {
            Some(nm) => Some(nm@),
            None => None,
        };
        let defaults = build_defaults(d_sqlite, d_mysql, d_postgres, d_redis);
        proof {
            lemma_tables_well_formed(
                sources@,
                defaults@,
                snap1,
                snap2,
                snap3,
                self.sqlite@,
                self.mysql@,
                self.postgres@,
                self.redis@,
                dn_sqlite,
                dn_mysql,
                dn_postgres,
                dn_redis,
            );
        }
        let m = DbManager::new(sources, defaults);
        proof {
            assert(m.wf());
            assert(kind_built(m, self.sqlite@));
            assert(kind_built(m, self.mysql@));
            assert(kind_built(m, self.postgres@));
            assert(kind_built(m, self.redis@));
        }
        Ok(m)
    }
}

} // verus!
