//! Render queue building: once per frame, for every active view, specialize
//! the pipeline for that view's key and append one queued draw item per
//! eligible entity to the view's phase. One specialization lookup is amortized
//! across all entities of a view; items carry a constant sort key, a
//! single-item batch range and a structurally non-indexed flag.

use vstd::prelude::*;
use crate::pipeline::PipelineKey;
use crate::pipeline::PipelineSpecializationCache;
use crate::pipeline::cache_handle;
use crate::pipeline::handle_valid;
use crate::pipeline::lemma_cache_handle_stable;
use crate::pipeline::specialize_keys;

verus! {

/// A render view as the queue phase sees it: its identity and the two
/// parameters that make up its pipeline key.
#[derive(Clone, Copy, Debug, PartialEq, Eq, Structural)]
pub struct ExtractedView {
    pub view_id: u64,
    pub msaa_samples: u32,
    pub hdr: bool,
}

/// The pipeline key of a view.
pub open spec fn view_key(v: ExtractedView) -> PipelineKey {
    PipelineKey { msaa_samples: v.msaa_samples, hdr: v.hdr }
}

/// One queued unit of draw work for one view: everything needed to resolve
/// and submit the draw later.
#[derive(Clone, Copy, Debug, PartialEq, Eq, Structural)]
pub struct QueuedDrawItem {
    pub sort_key: u32,
    pub entity: u64,
    pub pipeline: usize,
    pub draw_function: u64,
    pub batch_start: u32,
    pub batch_end: u32,
    pub indexed: bool,
}

/// The item queued for one entity: constant sort key (no depth or material
/// sorting among instanced entities), a single-item batch range, and the
/// indexed flag structurally false — whether the draw really uses an index
/// buffer is decided per mesh at draw time.
pub open spec fn queued_item(entity: u64, pipeline: usize, draw_function: u64) -> QueuedDrawItem {
    QueuedDrawItem {
        sort_key: 0,
        entity,
        pipeline,
        draw_function,
        batch_start: 0,
        batch_end: 1,
        indexed: false,
    }
}

/// One item per eligible entity, in entity order, all under one pipeline.
pub open spec fn queued_items(entities: Seq<u64>, pipeline: usize, draw_function: u64) -> Seq<
    QueuedDrawItem,
> {
    Seq::new(entities.len(), |i: int| queued_item(entities[i], pipeline, draw_function))
}

/// One view's queue of draw work for the current frame.
#[derive(Clone, Debug, PartialEq, Eq)]
pub struct ViewPhase {
    pub view_id: u64,
    pub items: Vec<QueuedDrawItem>,
}

/// The view identities of a phase list.
pub open spec fn phase_ids(phases: Seq<ViewPhase>) -> Seq<u64> {
    Seq::new(phases.len(), |i: int| phases[i].view_id)
}

/// The cache key sequence after queueing a whole frame: the views are taken
/// in order, and each view that has a phase contributes one specialization
/// request for its key; views without a phase are skipped.
pub open spec fn frame_keys(
    keys: Seq<PipelineKey>,
    views: Seq<ExtractedView>,
    ids: Seq<u64>,
) -> Seq<PipelineKey>
    decreases views.len(),
{
    if views.len() == 0 {
        keys
    } else {
        let prev = frame_keys(keys, views.drop_last(), ids);
        if ids.contains(views.last().view_id) {
            specialize_keys(prev, view_key(views.last()))
        } else {
            prev
        }
    }
}

/// Queue one view: specialize the pipeline for the view's key once, then
/// append one item per eligible entity to the view's phase, every item under
/// the returned pipeline handle.
pub fn queue_view(
    cache: &mut PipelineSpecializationCache,
    view: &ExtractedView,
    entities: &Vec<u64>,
    draw_function: u64,
    phase_items: &mut Vec<QueuedDrawItem>,
) -> (h: usize)
    requires
        old(cache).wf(),
    ensures
        final(cache).wf(),
        final(cache).keys@ == specialize_keys(old(cache).keys@, view_key(*view)),
        h == cache_handle(final(cache).keys@, view_key(*view)),
        h < final(cache).keys@.len(),
        final(cache).keys@[h as int] == view_key(*view),
        handle_valid(final(cache).keys@, view_key(*view)),
        old(cache).keys@ =~= final(cache).keys@.take(old(cache).keys@.len() as int),
        final(phase_items)@ == old(phase_items)@ + queued_items(entities@, h, draw_function),
{
    let pipeline = cache.specialize(PipelineKey { msaa_samples: view.msaa_samples, hdr: view.hdr });
    let n = entities.len();
    let mut i: usize = 0;
    while i < n
        invariant
            n == entities@.len(),
            i <= n,
            phase_items@ == old(phase_items)@ + queued_items(
                entities@.take(i as int),
                pipeline,
                draw_function,
            ),
        decreases n - i,
    {
        phase_items.push(QueuedDrawItem {
            sort_key: 0,
            entity: entities[i],
            pipeline,
            draw_function,
            batch_start: 0,
            batch_end: 1,
            indexed: false,
        });
        proof {
            assert(phase_items@ =~= old(phase_items)@ + queued_items(
                entities@.take(i + 1),
                pipeline,
                draw_function,
            ));
        }
        i = i + 1;
    }
    proof {
        assert(entities@.take(n as int) =~= entities@);
        assert(phase_items@ =~= old(phase_items)@ + queued_items(entities@, pipeline, draw_function));
    }
    pipeline
}

/// The index of the phase belonging to `id`, if one exists.
fn find_phase(phases: &Vec<ViewPhase>, id: u64) -> (r: Option<usize>)
    ensures
        r matches Some(j) ==> j < phases@.len() && phases@[j as int].view_id == id,
        r is None ==> forall|j: int| 0 <= j < phases@.len() ==> phases@[j].view_id != id,
{
    let n = phases.len();
    let mut j: usize = 0;
    while j < n
        invariant
            n == phases@.len(),
            j <= n,
            forall|k: int| 0 <= k < j ==> phases@[k].view_id != id,
        decreases n - j,
    {
        if phases[j].view_id == id {
            return Some(j);
        }
        j = j + 1;
    }
    None
}

/// Queue a whole frame: for each view in order, if a phase exists for that
/// view, specialize its pipeline (first request compiles and caches, later
/// requests reuse) and append one item per eligible entity to that phase.
/// Views without a phase and phases without a view are left untouched. The
/// cache is append-only across the whole phase: prior entries keep their
/// handles.
pub fn queue_custom(
    cache: &mut PipelineSpecializationCache,
    views: &Vec<ExtractedView>,
    entities: &Vec<u64>,
    draw_function: u64,
    phases: &mut Vec<ViewPhase>,
)
    requires
        old(cache).wf(),
        forall|i: int, j: int| 0 <= i < j < views@.len()
            ==> (#[trigger] views@[i]).view_id != (#[trigger] views@[j]).view_id,
        forall|i: int, j: int| 0 <= i < j < old(phases)@.len()
            ==> (#[trigger] old(phases)@[i]).view_id != (#[trigger] old(phases)@[j]).view_id,
    ensures
        final(cache).wf(),
        final(cache).keys@ == frame_keys(old(cache).keys@, views@, phase_ids(old(phases)@)),
        old(cache).keys@ =~= final(cache).keys@.take(old(cache).keys@.len() as int),
        final(phases)@.len() == old(phases)@.len(),
        forall|j: int| 0 <= j < final(phases)@.len()
            ==> (#[trigger] final(phases)@[j]).view_id == old(phases)@[j].view_id,
        // a phase no view names is left untouched
        forall|j: int|
            0 <= j < final(phases)@.len() && (forall|i: int|
                0 <= i < views@.len() ==> (#[trigger] views@[i]).view_id != old(phases)@[j].view_id)
                ==> (#[trigger] final(phases)@[j]).items@ == old(phases)@[j].items@,
        // a phase its view names gets one item per entity, under the handle
        // the final cache holds for that view's key
        forall|j: int, i: int|
            #![trigger views@[i], old(phases)@[j]]
            0 <= j < final(phases)@.len() && 0 <= i < views@.len()
                && views@[i].view_id == old(phases)@[j].view_id
                ==> handle_valid(final(cache).keys@, view_key(views@[i]))
                    && final(phases)@[j].items@ == old(phases)@[j].items@ + queued_items(
                        entities@,
                        cache_handle(final(cache).keys@, view_key(views@[i])) as usize,
                        draw_function,
                    ),
{
    let ghost keys0 = cache.keys@;
    let ghost phases0 = phases@;
    let ghost ids0 = phase_ids(phases0);
    let n = views.len();
    let mut vi: usize = 0;
    while vi < n
        invariant
            n == views@.len(),
            vi <= n,
            cache.wf(),
            forall|i: int, j: int| 0 <= i < j < views@.len()
                ==> (#[trigger] views@[i]).view_id != (#[trigger] views@[j]).view_id,
            forall|i: int, j: int| 0 <= i < j < phases0.len()
                ==> (#[trigger] phases0[i]).view_id != (#[trigger] phases0[j]).view_id,
            ids0 == phase_ids(phases0),
            cache.keys@ == frame_keys(keys0, views@.take(vi as int), ids0),
            keys0.len() <= cache.keys@.len(),
            keys0 =~= cache.keys@.take(keys0.len() as int),
            phases@.len() == phases0.len(),
            forall|j: int| 0 <= j < phases@.len()
                ==> (#[trigger] phases@[j]).view_id == phases0[j].view_id,
            forall|j: int|
                0 <= j < phases@.len() && (forall|i: int|
                    0 <= i < vi ==> (#[trigger] views@[i]).view_id != phases0[j].view_id)
                    ==> (#[trigger] phases@[j]).items@ == phases0[j].items@,
            forall|j: int, i: int|
                #![trigger views@[i], phases0[j]]
                0 <= j < phases@.len() && 0 <= i < vi
                    && views@[i].view_id == phases0[j].view_id
                    ==> handle_valid(cache.keys@, view_key(views@[i]))
                        && phases@[j].items@ == phases0[j].items@ + queued_items(
                        entities@,
                        cache_handle(cache.keys@, view_key(views@[i])) as usize,
                        draw_function,
                    ),
        decreases n - vi,
    {
        let view = views[vi];
        let ghost keys_before = cache.keys@;
        let ghost phases_pre = phases@;
        match find_phase(phases, view.view_id) {
            Some(j) => {
                let mut phase = phases.remove(j);
                let _h = queue_view(cache, &view, entities, draw_function, &mut phase.items);
                let ghost new_phase = phase;
                phases.insert(j, phase);
                proof {
                    assert(phases@ =~= phases_pre.update(j as int, new_phase));
                    // no earlier view named phase `j`, so it still held its
                    // original items when this view reached it
                    assert forall|i: int| 0 <= i < vi
                        implies (#[trigger] views@[i]).view_id != phases0[j as int].view_id by {
                        assert(views@[i].view_id != views@[vi as int].view_id);
                    }
                    assert(phases_pre[j as int].items@ == phases0[j as int].items@);
                    // the frame key model takes this view's specialization step
                    assert(ids0.contains(views@[vi as int].view_id)) by {
                        assert(ids0[j as int] == phases0[j as int].view_id);
                    }
                    assert(views@.take(vi + 1).drop_last() =~= views@.take(vi as int));
                    assert(views@.take(vi + 1).last() == views@[vi as int]);
                    assert(cache.keys@ == frame_keys(keys0, views@.take(vi + 1), ids0));
                    // this view's phase now holds its items under this view's
                    // cached handle
                    assert(phases@[j as int] == new_phase);
                    assert(cache_handle(cache.keys@, view_key(views@[vi as int])) as usize == _h);
                    assert(new_phase.items@ == phases0[j as int].items@ + queued_items(
                        entities@,
                        _h,
                        draw_function,
                    ));
                    // handles recorded for earlier views survive the growth
                    assert(keys_before =~= cache.keys@.take(keys_before.len() as int));
                    assert forall|k: int, i: int|
                        #![trigger views@[i], phases0[k]]
                        0 <= k < phases@.len() && 0 <= i < vi + 1
                            && views@[i].view_id == phases0[k].view_id
                        implies handle_valid(cache.keys@, view_key(views@[i]))
                            && phases@[k].items@ == phases0[k].items@ + queued_items(
                            entities@,
                            cache_handle(cache.keys@, view_key(views@[i])) as usize,
                            draw_function,
                        ) by {
                        if i == vi as int {
                            // only phase `j` carries this view's identity
                            assert(phases0[j as int].view_id == views@[vi as int].view_id);
                            assert(k == j as int);
                            assert(phases@[k] == new_phase);
                        } else {
                            assert(views@[i].view_id != views@[vi as int].view_id);
                            assert(k != j as int);
                            assert(phases@[k] == phases_pre[k]);
                            assert(phases_pre[k].items@ == phases0[k].items@ + queued_items(
                                entities@,
                                cache_handle(keys_before, view_key(views@[i])) as usize,
                                draw_function,
                            ));
                            assert(handle_valid(keys_before, view_key(views@[i])));
                            lemma_cache_handle_stable(keys_before, cache.keys@, view_key(views@[i]));
                        }
                    }
                    assert(keys0.len() <= keys_before.len());
                    assert forall|x: int| 0 <= x < keys0.len()
                        implies cache.keys@[x] == keys0[x] by {
                        assert(keys_before[x] == keys0[x]);
                        assert(cache.keys@[x] == keys_before[x]);
                    }
                    assert(keys0 =~= cache.keys@.take(keys0.len() as int));
                }
            }
            None => {
                proof {
                    assert(!ids0.contains(views@[vi as int].view_id)) by {
                        if ids0.contains(views@[vi as int].view_id) {
                            let j = choose|j: int|
                                0 <= j < ids0.len() && ids0[j] == views@[vi as int].view_id;
                            assert(phases@[j].view_id == phases0[j].view_id);
                        }
                    }
                    assert(views@.take(vi + 1).drop_last() =~= views@.take(vi as int));
                    assert(views@.take(vi + 1).last() == views@[vi as int]);
                    assert(cache.keys@ == frame_keys(keys0, views@.take(vi + 1), ids0));
                    // no phase carries this view's identity, so no new pair
                    assert forall|k: int, i: int|
                        #![trigger views@[i], phases0[k]]
                        0 <= k < phases@.len() && 0 <= i < vi + 1
                            && views@[i].view_id == phases0[k].view_id
                        implies handle_valid(cache.keys@, view_key(views@[i]))
                            && phases@[k].items@ == phases0[k].items@ + queued_items(
                            entities@,
                            cache_handle(cache.keys@, view_key(views@[i])) as usize,
                            draw_function,
                        ) by {
                        if i == vi as int {
                            assert(phases@[k].view_id == phases0[k].view_id);
                            assert(false);
                        }
                    }
                }
            }
        }
        vi = vi + 1;
    }
    proof {
        assert(views@.take(n as int) =~= views@);
    }
}

} // verus!
