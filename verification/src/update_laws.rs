//! What a sparse update of the central configuration leaves alone.

use crate::json::JsonModel;
use crate::openclaw_config::{
    defaults_path, describes, fallbacks_node, fallbacks_path, fresh_defaults, fresh_subagents,
    is_default_view, limit_node,
    max_concurrent_path, model_path, primary_node, primary_path, set_if, subagents_max_children_path,
    subagents_max_concurrent_path, subagents_max_spawn_depth_path, subagents_path, updated,
    with_agents_defaults, with_subagents, OpenClawConfigUpdates, OpenClawConfigView,
};
use crate::order::texts;
use crate::paths::{
    diverge, lemma_at_prefix, lemma_set_path_keeps_others, lemma_set_path_reads_back, set_path,
};
use vstd::prelude::*;

verus! {

/// Whether `prefix` is a beginning of `path`.
pub open spec fn begins(path: Seq<Seq<char>>, prefix: Seq<Seq<char>>) -> bool {
    prefix.len() <= path.len() && path.take(prefix.len() as int) == prefix
}

/// Paths that agree up to a position and differ there part ways.
pub proof fn lemma_diverge_at(p: Seq<Seq<char>>, q: Seq<Seq<char>>, i: int)
    requires
        0 <= i < p.len(),
        i < q.len(),
        p[i] != q[i],
        forall|j: int| 0 <= j < i ==> p[j] == q[j],
    ensures
        diverge(p, q),
        diverge(q, p),
{
    assert(p.subrange(0, i) =~= q.subrange(0, i));
}

/// The keys below `agents.defaults` are different strings.
pub proof fn lemma_section_keys_differ()
    ensures
        "model"@ != "subagents"@,
        "model"@ != "maxConcurrent"@,
        "subagents"@ != "maxConcurrent"@,
        "primary"@ != "fallbacks"@,
        "maxConcurrent"@ != "maxSpawnDepth"@,
        "maxConcurrent"@ != "maxChildrenPerAgent"@,
        "maxSpawnDepth"@ != "maxChildrenPerAgent"@,
{
    reveal_strlit("model");
    reveal_strlit("subagents");
    reveal_strlit("maxConcurrent");
    reveal_strlit("primary");
    reveal_strlit("fallbacks");
    reveal_strlit("maxSpawnDepth");
    reveal_strlit("maxChildrenPerAgent");
    assert("model"@.len() != "subagents"@.len());
    assert("model"@.len() != "maxConcurrent"@.len());
    assert("subagents"@.len() != "maxConcurrent"@.len());
    assert("primary"@.len() != "fallbacks"@.len());
    assert("maxConcurrent"@[3] != "maxSpawnDepth"@[3]);
    assert("maxConcurrent"@.len() != "maxChildrenPerAgent"@.len());
    assert("maxSpawnDepth"@.len() != "maxChildrenPerAgent"@.len());
}

/// Setting a value, or not, at a path leaves a path alone that parts ways
/// with it, and any path where there is nothing to set.
pub proof fn lemma_set_if_keeps(
    doc: JsonModel,
    path: Seq<Seq<char>>,
    value: Option<JsonModel>,
    other: Seq<Seq<char>>,
)
    requires
        value is None || diverge(other, path),
    ensures
        set_if(doc, path, value).at(other) == doc.at(other),
{
    match value {
        Some(v) => {
            lemma_set_path_keeps_others(doc, path, v, other);
        },
        None => {},
    }
}

/// Whether creating what is missing at `scaffold` leaves `path` alone in
/// `doc`: the two part ways, or `scaffold` is a beginning of `path` and the
/// document has something at `path`, so that nothing is missing there.
pub open spec fn clear_of(doc: JsonModel, path: Seq<Seq<char>>, scaffold: Seq<Seq<char>>) -> bool {
    diverge(path, scaffold) || (begins(path, scaffold) && doc.at(path) is Some)
}

/// A path that parts ways with another parts ways with every path that the
/// other is a beginning of.
pub proof fn lemma_diverge_from_longer(
    path: Seq<Seq<char>>,
    other: Seq<Seq<char>>,
    longer: Seq<Seq<char>>,
)
    requires
        diverge(path, other),
        begins(longer, other),
    ensures
        diverge(path, longer),
{
    let i = choose|i: int|
        0 <= i < path.len() && i < other.len() && #[trigger] path[i] != other[i] && path.subrange(
            0,
            i,
        ) == other.subrange(0, i);
    assert(other[i] == longer.take(other.len() as int)[i]);
    assert forall|j: int| 0 <= j < i implies path[j] == longer[j] by {
        assert(path[j] == path.subrange(0, i)[j]);
        assert(other[j] == other.subrange(0, i)[j]);
        assert(other[j] == longer.take(other.len() as int)[j]);
    }
    lemma_diverge_at(path, longer, i);
}

/// Putting the scaffold in place leaves what is found at `path` as it was,
/// where `path` is clear of each scaffold path.
pub proof fn lemma_scaffold_keeps(doc: JsonModel, path: Seq<Seq<char>>)
    requires
        clear_of(doc, path, defaults_path()),
        clear_of(doc, path, model_path()),
        clear_of(doc, path, subagents_path()),
    ensures
        with_subagents(with_agents_defaults(doc)).at(path) == doc.at(path),
{
    let d0 = with_agents_defaults(doc);
    if doc.at(defaults_path()) is None {
        if !diverge(path, defaults_path()) {
            lemma_at_prefix(doc, path, defaults_path().len() as int);
        }
        lemma_set_path_keeps_others(doc, defaults_path(), fresh_defaults(), path);
    } else if doc.at(model_path()) is None {
        if !diverge(path, model_path()) {
            lemma_at_prefix(doc, path, model_path().len() as int);
        }
        lemma_set_path_keeps_others(doc, model_path(), JsonModel::empty_object(), path);
    }
    assert(d0.at(path) == doc.at(path));
    if d0.at(subagents_path()) is None {
        if !diverge(path, subagents_path()) {
            lemma_at_prefix(d0, path, subagents_path().len() as int);
        }
        lemma_set_path_keeps_others(d0, subagents_path(), fresh_subagents(), path);
    }
}

/// What the six fields of an update part ways with.
pub proof fn lemma_field_paths_diverge()
    ensures
        diverge(primary_path(), fallbacks_path()),
        diverge(primary_path(), max_concurrent_path()),
        diverge(primary_path(), subagents_max_concurrent_path()),
        diverge(primary_path(), subagents_max_spawn_depth_path()),
        diverge(primary_path(), subagents_max_children_path()),
        diverge(fallbacks_path(), primary_path()),
        diverge(fallbacks_path(), max_concurrent_path()),
        diverge(fallbacks_path(), subagents_max_concurrent_path()),
        diverge(fallbacks_path(), subagents_max_spawn_depth_path()),
        diverge(fallbacks_path(), subagents_max_children_path()),
        diverge(max_concurrent_path(), primary_path()),
        diverge(max_concurrent_path(), fallbacks_path()),
        diverge(max_concurrent_path(), subagents_max_concurrent_path()),
        diverge(max_concurrent_path(), subagents_max_spawn_depth_path()),
        diverge(max_concurrent_path(), subagents_max_children_path()),
        diverge(subagents_max_concurrent_path(), primary_path()),
        diverge(subagents_max_concurrent_path(), fallbacks_path()),
        diverge(subagents_max_concurrent_path(), max_concurrent_path()),
        diverge(subagents_max_concurrent_path(), subagents_max_spawn_depth_path()),
        diverge(subagents_max_concurrent_path(), subagents_max_children_path()),
        diverge(subagents_max_spawn_depth_path(), primary_path()),
        diverge(subagents_max_spawn_depth_path(), fallbacks_path()),
        diverge(subagents_max_spawn_depth_path(), max_concurrent_path()),
        diverge(subagents_max_spawn_depth_path(), subagents_max_concurrent_path()),
        diverge(subagents_max_spawn_depth_path(), subagents_max_children_path()),
        diverge(subagents_max_children_path(), primary_path()),
        diverge(subagents_max_children_path(), fallbacks_path()),
        diverge(subagents_max_children_path(), max_concurrent_path()),
        diverge(subagents_max_children_path(), subagents_max_concurrent_path()),
        diverge(subagents_max_children_path(), subagents_max_spawn_depth_path()),
        diverge(max_concurrent_path(), model_path()),
        diverge(max_concurrent_path(), subagents_path()),
        diverge(primary_path(), subagents_path()),
        diverge(fallbacks_path(), subagents_path()),
        diverge(subagents_max_concurrent_path(), model_path()),
        diverge(subagents_max_spawn_depth_path(), model_path()),
        diverge(subagents_max_children_path(), model_path()),
{
    lemma_section_keys_differ();
    let p = primary_path();
    let f = fallbacks_path();
    let c = max_concurrent_path();
    let sc = subagents_max_concurrent_path();
    let sd = subagents_max_spawn_depth_path();
    let sk = subagents_max_children_path();
    lemma_diverge_at(p, f, 3);
    lemma_diverge_at(p, c, 2);
    lemma_diverge_at(p, sc, 2);
    lemma_diverge_at(p, sd, 2);
    lemma_diverge_at(p, sk, 2);
    lemma_diverge_at(f, c, 2);
    lemma_diverge_at(f, sc, 2);
    lemma_diverge_at(f, sd, 2);
    lemma_diverge_at(f, sk, 2);
    lemma_diverge_at(c, sc, 2);
    lemma_diverge_at(c, sd, 2);
    lemma_diverge_at(c, sk, 2);
    lemma_diverge_at(sc, sd, 3);
    lemma_diverge_at(sc, sk, 3);
    lemma_diverge_at(sd, sk, 3);
    lemma_diverge_at(c, model_path(), 2);
    lemma_diverge_at(c, subagents_path(), 2);
    lemma_diverge_at(p, subagents_path(), 2);
    lemma_diverge_at(f, subagents_path(), 2);
    lemma_diverge_at(sc, model_path(), 2);
    lemma_diverge_at(sd, model_path(), 2);
    lemma_diverge_at(sk, model_path(), 2);
}

/// An update leaves what is found at `path` as it was, where every field
/// that the update names lies on a path that parts ways with `path`, and
/// `path` is clear of each scaffold path.
pub proof fn lemma_update_keeps_path(
    doc: JsonModel,
    updates: OpenClawConfigUpdates,
    path: Seq<Seq<char>>,
)
    requires
        clear_of(doc, path, defaults_path()),
        clear_of(doc, path, model_path()),
        clear_of(doc, path, subagents_path()),
        primary_node(updates) is None || diverge(path, primary_path()),
        fallbacks_node(updates) is None || diverge(path, fallbacks_path()),
        updates.max_concurrent is None || diverge(path, max_concurrent_path()),
        updates.subagents_max_concurrent is None || diverge(path, subagents_max_concurrent_path()),
        updates.subagents_max_spawn_depth is None || diverge(
            path,
            subagents_max_spawn_depth_path(),
        ),
        updates.subagents_max_children_per_agent is None || diverge(
            path,
            subagents_max_children_path(),
        ),
    ensures
        updated(doc, updates).at(path) == doc.at(path),
{
    lemma_scaffold_keeps(doc, path);
    let d0 = with_subagents(with_agents_defaults(doc));
    let d1 = set_if(d0, primary_path(), primary_node(updates));
    lemma_set_if_keeps(d0, primary_path(), primary_node(updates), path);
    let d2 = set_if(d1, fallbacks_path(), fallbacks_node(updates));
    lemma_set_if_keeps(d1, fallbacks_path(), fallbacks_node(updates), path);
    let d3 = set_if(d2, max_concurrent_path(), limit_node(updates.max_concurrent));
    lemma_set_if_keeps(d2, max_concurrent_path(), limit_node(updates.max_concurrent), path);
    let d4 = set_if(
        d3,
        subagents_max_concurrent_path(),
        limit_node(updates.subagents_max_concurrent),
    );
    lemma_set_if_keeps(
        d3,
        subagents_max_concurrent_path(),
        limit_node(updates.subagents_max_concurrent),
        path,
    );
    let d5 = set_if(
        d4,
        subagents_max_spawn_depth_path(),
        limit_node(updates.subagents_max_spawn_depth),
    );
    lemma_set_if_keeps(
        d4,
        subagents_max_spawn_depth_path(),
        limit_node(updates.subagents_max_spawn_depth),
        path,
    );
    lemma_set_if_keeps(
        d5,
        subagents_max_children_path(),
        limit_node(updates.subagents_max_children_per_agent),
        path,
    );
}

/// The field paths begin with the scaffold paths that they lie below.
pub proof fn lemma_field_paths_begin()
    ensures
        begins(primary_path(), defaults_path()),
        begins(primary_path(), model_path()),
        begins(fallbacks_path(), defaults_path()),
        begins(fallbacks_path(), model_path()),
        begins(max_concurrent_path(), defaults_path()),
        begins(subagents_max_concurrent_path(), defaults_path()),
        begins(subagents_max_concurrent_path(), subagents_path()),
        begins(subagents_max_spawn_depth_path(), defaults_path()),
        begins(subagents_max_spawn_depth_path(), subagents_path()),
        begins(subagents_max_children_path(), defaults_path()),
        begins(subagents_max_children_path(), subagents_path()),
{
    assert(primary_path().take(2) =~= defaults_path());
    assert(primary_path().take(3) =~= model_path());
    assert(fallbacks_path().take(2) =~= defaults_path());
    assert(fallbacks_path().take(3) =~= model_path());
    assert(max_concurrent_path().take(2) =~= defaults_path());
    assert(subagents_max_concurrent_path().take(2) =~= defaults_path());
    assert(subagents_max_concurrent_path().take(3) =~= subagents_path());
    assert(subagents_max_spawn_depth_path().take(2) =~= defaults_path());
    assert(subagents_max_spawn_depth_path().take(3) =~= subagents_path());
    assert(subagents_max_children_path().take(2) =~= defaults_path());
    assert(subagents_max_children_path().take(3) =~= subagents_path());
}

/// A sparse update leaves every field that it does not name as it was: for
/// each of the six fields, where the update has `None` for it and the
/// document had a value at its path, the updated document has that value
/// there.
pub proof fn lemma_sparse_update_keeps_fields(doc: JsonModel, updates: OpenClawConfigUpdates)
    ensures
        updates.primary_model is None && doc.at(primary_path()) is Some ==> updated(
            doc,
            updates,
        ).at(primary_path()) == doc.at(primary_path()),
        updates.fallbacks is None && doc.at(fallbacks_path()) is Some ==> updated(
            doc,
            updates,
        ).at(fallbacks_path()) == doc.at(fallbacks_path()),
        updates.max_concurrent is None && doc.at(max_concurrent_path()) is Some ==> updated(
            doc,
            updates,
        ).at(max_concurrent_path()) == doc.at(max_concurrent_path()),
        updates.subagents_max_concurrent is None && doc.at(subagents_max_concurrent_path())
            is Some ==> updated(doc, updates).at(subagents_max_concurrent_path()) == doc.at(
            subagents_max_concurrent_path(),
        ),
        updates.subagents_max_spawn_depth is None && doc.at(subagents_max_spawn_depth_path())
            is Some ==> updated(doc, updates).at(subagents_max_spawn_depth_path()) == doc.at(
            subagents_max_spawn_depth_path(),
        ),
        updates.subagents_max_children_per_agent is None && doc.at(subagents_max_children_path())
            is Some ==> updated(doc, updates).at(subagents_max_children_path()) == doc.at(
            subagents_max_children_path(),
        ),
{
    lemma_field_paths_diverge();
    lemma_field_paths_begin();
    if updates.primary_model is None && doc.at(primary_path()) is Some {
        lemma_update_keeps_path(doc, updates, primary_path());
    }
    if updates.fallbacks is None && doc.at(fallbacks_path()) is Some {
        lemma_update_keeps_path(doc, updates, fallbacks_path());
    }
    if updates.max_concurrent is None && doc.at(max_concurrent_path()) is Some {
        lemma_update_keeps_path(doc, updates, max_concurrent_path());
    }
    if updates.subagents_max_concurrent is None && doc.at(subagents_max_concurrent_path())
        is Some {
        lemma_update_keeps_path(doc, updates, subagents_max_concurrent_path());
    }
    if updates.subagents_max_spawn_depth is None && doc.at(subagents_max_spawn_depth_path())
        is Some {
        lemma_update_keeps_path(doc, updates, subagents_max_spawn_depth_path());
    }
    if updates.subagents_max_children_per_agent is None && doc.at(subagents_max_children_path())
        is Some {
        lemma_update_keeps_path(doc, updates, subagents_max_children_path());
    }
}

/// An update leaves alone whatever lies beside `agents.defaults`: a path
/// that parts ways with `agents.defaults` finds after the update what it
/// found before. That holds of what lies outside `agents`, and of what lies
/// in `agents` beside `defaults`.
pub proof fn lemma_update_keeps_beside_defaults(
    doc: JsonModel,
    updates: OpenClawConfigUpdates,
    path: Seq<Seq<char>>,
)
    requires
        diverge(path, defaults_path()),
    ensures
        updated(doc, updates).at(path) == doc.at(path),
{
    lemma_field_paths_begin();
    assert(model_path().take(2) =~= defaults_path());
    assert(subagents_path().take(2) =~= defaults_path());
    lemma_diverge_from_longer(path, defaults_path(), model_path());
    lemma_diverge_from_longer(path, defaults_path(), subagents_path());
    lemma_diverge_from_longer(path, defaults_path(), primary_path());
    lemma_diverge_from_longer(path, defaults_path(), fallbacks_path());
    lemma_diverge_from_longer(path, defaults_path(), max_concurrent_path());
    lemma_diverge_from_longer(path, defaults_path(), subagents_max_concurrent_path());
    lemma_diverge_from_longer(path, defaults_path(), subagents_max_spawn_depth_path());
    lemma_diverge_from_longer(path, defaults_path(), subagents_max_children_path());
    lemma_update_keeps_path(doc, updates, path);
}

/// An update leaves alone whatever lies outside `agents`: a path whose first
/// key is not `agents` finds after the update what it found before.
pub proof fn lemma_update_keeps_other_sections(
    doc: JsonModel,
    updates: OpenClawConfigUpdates,
    path: Seq<Seq<char>>,
)
    requires
        path.len() > 0,
        path[0] != "agents"@,
    ensures
        updated(doc, updates).at(path) == doc.at(path),
{
    lemma_diverge_at(path, defaults_path(), 0);
    lemma_update_keeps_beside_defaults(doc, updates, path);
}

/// Setting a value at a path leaves an object an object.
pub proof fn lemma_set_path_keeps_object(doc: JsonModel, path: Seq<Seq<char>>, value: JsonModel)
    requires
        doc is Object,
    ensures
        set_path(doc, path, value) is Object,
{
}

/// Setting a value at a path, where there is one to set, and then setting or
/// not setting a value at a path that parts ways with it, leaves the first
/// value in its place.
pub proof fn lemma_set_if_stays(
    doc: JsonModel,
    path: Seq<Seq<char>>,
    later: Seq<Seq<char>>,
    value: Option<JsonModel>,
    found: Option<JsonModel>,
)
    requires
        doc.at(path) == found,
        diverge(path, later),
    ensures
        set_if(doc, later, value).at(path) == found,
        doc is Object ==> set_if(doc, later, value) is Object,
{
    lemma_set_if_keeps(doc, later, value, path);
    match value {
        Some(v) => {
            if doc is Object {
                lemma_set_path_keeps_object(doc, later, v);
            }
        },
        None => {},
    }
}

/// An update sets every field that it names: for each of the six fields,
/// where the update has a value for it, the updated document has that value
/// at the field's path.
pub proof fn lemma_update_sets_named_fields(doc: JsonModel, updates: OpenClawConfigUpdates)
    requires
        doc is Object,
    ensures
        primary_node(updates) is Some ==> updated(doc, updates).at(primary_path())
            == primary_node(updates),
        fallbacks_node(updates) is Some ==> updated(doc, updates).at(fallbacks_path())
            == fallbacks_node(updates),
        updates.max_concurrent is Some ==> updated(doc, updates).at(max_concurrent_path())
            == limit_node(updates.max_concurrent),
        updates.subagents_max_concurrent is Some ==> updated(doc, updates).at(
            subagents_max_concurrent_path(),
        ) == limit_node(updates.subagents_max_concurrent),
        updates.subagents_max_spawn_depth is Some ==> updated(doc, updates).at(
            subagents_max_spawn_depth_path(),
        ) == limit_node(updates.subagents_max_spawn_depth),
        updates.subagents_max_children_per_agent is Some ==> updated(doc, updates).at(
            subagents_max_children_path(),
        ) == limit_node(updates.subagents_max_children_per_agent),
        updated(doc, updates) is Object,
{
    lemma_field_paths_diverge();
    let p = primary_path();
    let f = fallbacks_path();
    let c = max_concurrent_path();
    let sc = subagents_max_concurrent_path();
    let sd = subagents_max_spawn_depth_path();
    let sk = subagents_max_children_path();
    let vp = primary_node(updates);
    let vf = fallbacks_node(updates);
    let vc = limit_node(updates.max_concurrent);
    let vsc = limit_node(updates.subagents_max_concurrent);
    let vsd = limit_node(updates.subagents_max_spawn_depth);
    let vsk = limit_node(updates.subagents_max_children_per_agent);
    let a = with_agents_defaults(doc);
    let d0 = with_subagents(a);
    assert(a is Object);
    assert(d0 is Object);
    let d1 = set_if(d0, p, vp);
    let d2 = set_if(d1, f, vf);
    let d3 = set_if(d2, c, vc);
    let d4 = set_if(d3, sc, vsc);
    let d5 = set_if(d4, sd, vsd);
    let d6 = set_if(d5, sk, vsk);
    if vp is Some {
        lemma_set_path_reads_back(d0, p, vp->Some_0);
    }
    lemma_set_if_stays(d1, p, f, vf, d1.at(p));
    lemma_set_if_stays(d2, p, c, vc, d1.at(p));
    lemma_set_if_stays(d3, p, sc, vsc, d1.at(p));
    lemma_set_if_stays(d4, p, sd, vsd, d1.at(p));
    lemma_set_if_stays(d5, p, sk, vsk, d1.at(p));
    assert(d1 is Object);
    if vf is Some {
        lemma_set_path_reads_back(d1, f, vf->Some_0);
    }
    lemma_set_if_stays(d2, f, c, vc, d2.at(f));
    lemma_set_if_stays(d3, f, sc, vsc, d2.at(f));
    lemma_set_if_stays(d4, f, sd, vsd, d2.at(f));
    lemma_set_if_stays(d5, f, sk, vsk, d2.at(f));
    assert(d2 is Object);
    if vc is Some {
        lemma_set_path_reads_back(d2, c, vc->Some_0);
    }
    lemma_set_if_stays(d3, c, sc, vsc, d3.at(c));
    lemma_set_if_stays(d4, c, sd, vsd, d3.at(c));
    lemma_set_if_stays(d5, c, sk, vsk, d3.at(c));
    assert(d3 is Object);
    if vsc is Some {
        lemma_set_path_reads_back(d3, sc, vsc->Some_0);
    }
    lemma_set_if_stays(d4, sc, sd, vsd, d4.at(sc));
    lemma_set_if_stays(d5, sc, sk, vsk, d4.at(sc));
    assert(d4 is Object);
    if vsd is Some {
        lemma_set_path_reads_back(d4, sd, vsd->Some_0);
    }
    lemma_set_if_stays(d5, sd, sk, vsk, d5.at(sd));
    assert(d5 is Object);
    if vsk is Some {
        lemma_set_path_reads_back(d5, sk, vsk->Some_0);
    }
}

/// The view of the empty document is the default view: no providers, no
/// primary model, no fallbacks, no models, no limit, and the default
/// sub-agent limits.
pub proof fn lemma_empty_document_has_default_view(view: OpenClawConfigView)
    requires
        describes(view, JsonModel::empty_object()),
    ensures
        is_default_view(view),
{
    let names = texts(view.provider_names@);
    if names.len() > 0 {
        assert(names.to_set().contains(names[0]));
    }
    let models = texts(view.models@);
    if models.len() > 0 {
        assert(models.to_set().contains(models[0]));
    }
    assert(texts(view.fallbacks@).len() == view.fallbacks@.len());
}

} // verus!
