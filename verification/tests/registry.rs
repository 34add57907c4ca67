use aetna::buffers::{complete_upload, BufferUsage, FillStep, MemoryUsage, UploadStep};
use aetna::model::{InvalidHandle, Model};

type Registry = Model<[f32; 3], u32, u64>;

fn empty() -> Registry {
    Model::new(vec![[0.0, 0.0, 0.0], [1.0, 0.0, 0.0], [0.0, 1.0, 0.0]], vec![0, 1, 2])
}

fn slots(model: &Registry) -> Vec<usize> {
    (0..model.len()).map(|slot| model.handle_at(slot).unwrap()).collect()
}

fn sorted(mut handles: Vec<usize>) -> Vec<usize> {
    handles.sort();
    handles
}

#[test]
fn new_model_is_empty() {
    let model = empty();
    assert_eq!(model.len(), 0);
    assert_eq!(model.visible_count(), 0);
    assert_eq!(model.next_handle(), 0);
    assert_eq!(model.vertices().len(), 3);
    assert_eq!(model.indices(), &[0, 1, 2]);
    assert!(model.vertexbuffer().is_none());
    assert!(model.indexbuffer().is_none());
    assert!(model.instancebuffer().is_none());
    assert_eq!(model.handle_at(0), None);
}

#[test]
fn insert_show_two_remove_one() {
    let mut model = empty();
    let a = model.insert(10);
    let b = model.insert(20);
    let c = model.insert(30);
    assert_eq!(model.visible_count(), 0);

    assert_eq!(model.make_visible(a), Ok(()));
    assert_eq!(model.make_visible(c), Ok(()));
    assert_eq!(model.visible_count(), 2);
    assert_eq!(model.get(a), Some(&10));
    assert_eq!(model.get(c), Some(&30));
    assert_eq!(sorted(vec![model.handle_at(0).unwrap(), model.handle_at(1).unwrap()]), vec![a, c]);
    assert_eq!(model.handle_at(2), Some(b));

    assert_eq!(model.remove(a), Ok(10));
    assert_eq!(model.visible_count(), 1);
    assert_eq!(model.handle_at(0), Some(c));
    assert_eq!(model.get(a), None);
    assert_eq!(model.is_visible(a), Err(InvalidHandle));
    assert_eq!(model.len(), 2);
}

#[test]
fn insert_appends_invisible() {
    let mut model = empty();
    let a = model.insert_visibly(1);
    let b = model.insert(2);
    assert_eq!((a, b), (0, 1));
    assert_eq!(slots(&model), vec![a, b]);
    assert_eq!(model.is_visible(a), Ok(true));
    assert_eq!(model.is_visible(b), Ok(false));
    assert_eq!(model.visible_count(), 1);
    assert_eq!(model.next_handle(), 2);
}

#[test]
fn make_visible_swaps_with_first_invisible_slot() {
    let mut model = empty();
    let a = model.insert(1);
    let b = model.insert(2);
    let c = model.insert(3);
    assert_eq!(model.make_visible(c), Ok(()));
    assert_eq!(slots(&model), vec![c, b, a]);
    assert_eq!(model.visible_count(), 1);
    assert_eq!(model.make_visible(a), Ok(()));
    assert_eq!(slots(&model), vec![c, a, b]);
    assert_eq!(model.visible_count(), 2);
    assert_eq!(model.get(a), Some(&1));
    assert_eq!(model.get(b), Some(&2));
    assert_eq!(model.get(c), Some(&3));
}

#[test]
fn make_invisible_swaps_with_last_visible_slot() {
    let mut model = empty();
    let a = model.insert_visibly(1);
    let b = model.insert_visibly(2);
    let c = model.insert_visibly(3);
    assert_eq!(slots(&model), vec![a, b, c]);
    assert_eq!(model.make_invisible(a), Ok(()));
    assert_eq!(slots(&model), vec![c, b, a]);
    assert_eq!(model.visible_count(), 2);
    assert_eq!(model.is_visible(a), Ok(false));
    assert_eq!(model.is_visible(b), Ok(true));
    assert_eq!(model.is_visible(c), Ok(true));
    assert_eq!(model.get(a), Some(&1));
    assert_eq!(model.get(c), Some(&3));
}

#[test]
fn visibility_changes_are_idempotent() {
    let mut model = empty();
    let a = model.insert(1);
    let b = model.insert(2);
    let _c = model.insert(3);
    assert_eq!(model.make_visible(b), Ok(()));
    let once = (slots(&model), model.visible_count());
    assert_eq!(model.make_visible(b), Ok(()));
    assert_eq!((slots(&model), model.visible_count()), once);

    assert_eq!(model.make_visible(a), Ok(()));
    assert_eq!(model.make_invisible(b), Ok(()));
    let once = (slots(&model), model.visible_count());
    assert_eq!(model.make_invisible(b), Ok(()));
    assert_eq!((slots(&model), model.visible_count()), once);
    assert_eq!(model.is_visible(b), Ok(false));
}

#[test]
fn unknown_handles_are_reported() {
    let mut model = empty();
    let a = model.insert(1);
    let before = slots(&model);
    assert_eq!(model.make_visible(7), Err(InvalidHandle));
    assert_eq!(model.make_invisible(7), Err(InvalidHandle));
    assert_eq!(model.remove(7), Err(InvalidHandle));
    assert_eq!(model.is_visible(7), Err(InvalidHandle));
    assert_eq!(model.swap_by_handle(a, 7), Err(InvalidHandle));
    assert_eq!(model.swap_by_handle(7, a), Err(InvalidHandle));
    assert_eq!(model.get(7), None);
    assert!(model.get_mut(7).is_none());
    assert_eq!(slots(&model), before);
    assert_eq!(model.visible_count(), 0);
    assert_eq!(InvalidHandle.message(), "invalid handle");
}

#[test]
fn removed_handle_stays_invalid() {
    let mut model = empty();
    let a = model.insert_visibly(1);
    assert_eq!(model.remove(a), Ok(1));
    assert_eq!(model.remove(a), Err(InvalidHandle));
    assert_eq!(model.make_visible(a), Err(InvalidHandle));
    assert_eq!(model.len(), 0);
    assert_eq!(model.visible_count(), 0);
}

#[test]
fn handles_are_never_reused() {
    let mut model = empty();
    let a = model.insert(1);
    let b = model.insert(2);
    assert_eq!(model.remove(b), Ok(2));
    assert_eq!(model.remove(a), Ok(1));
    let c = model.insert(3);
    let d = model.insert_visibly(4);
    assert_eq!((a, b, c, d), (0, 1, 2, 3));
    assert_eq!(model.get(a), None);
    assert_eq!(model.get(b), None);
    assert_eq!(model.get(c), Some(&3));
    assert_eq!(model.next_handle(), 4);
}

#[test]
fn remove_invisible_instance_keeps_the_others() {
    let mut model = empty();
    let a = model.insert(1);
    let b = model.insert(2);
    let c = model.insert(3);
    assert_eq!(model.remove(b), Ok(2));
    assert_eq!(slots(&model), vec![a, c]);
    assert_eq!(model.get(a), Some(&1));
    assert_eq!(model.get(b), None);
    assert_eq!(model.get(c), Some(&3));
    assert_eq!(model.visible_count(), 0);
}

#[test]
fn remove_visible_instance_keeps_the_partition() {
    let mut model = empty();
    let a = model.insert_visibly(1);
    let b = model.insert_visibly(2);
    let c = model.insert_visibly(3);
    let d = model.insert(4);
    let e = model.insert(5);
    assert_eq!(model.remove(a), Ok(1));
    assert_eq!(slots(&model), vec![c, b, e, d]);
    assert_eq!(model.visible_count(), 2);
    assert_eq!(model.is_visible(b), Ok(true));
    assert_eq!(model.is_visible(c), Ok(true));
    assert_eq!(model.is_visible(d), Ok(false));
    assert_eq!(model.is_visible(e), Ok(false));
    assert_eq!(model.get(e), Some(&5));
}

#[test]
fn remove_the_only_instance() {
    let mut model = empty();
    let a = model.insert(9);
    assert_eq!(model.remove(a), Ok(9));
    assert_eq!(model.len(), 0);
    let b = model.insert_visibly(8);
    assert_eq!(model.remove(b), Ok(8));
    assert_eq!(model.len(), 0);
    assert_eq!(model.visible_count(), 0);
}

#[test]
fn records_survive_changes_to_other_handles() {
    let mut model = empty();
    let kept = model.insert(111);
    let mut others = Vec::new();
    for value in 0..20u32 {
        others.push(model.insert(value));
    }
    for (turn, other) in others.iter().enumerate() {
        if turn % 2 == 0 {
            assert_eq!(model.make_visible(*other), Ok(()));
        }
        if turn % 3 == 0 {
            assert_eq!(model.make_visible(kept), Ok(()));
        } else {
            assert_eq!(model.make_invisible(kept), Ok(()));
        }
        if turn % 4 == 1 {
            assert!(model.remove(*other).is_ok());
        }
        assert_eq!(model.get(kept), Some(&111));
    }
    assert_eq!(model.remove(kept), Ok(111));
    assert_eq!(model.get(kept), None);
}

#[test]
fn partition_holds_after_mixed_operations() {
    let mut model = empty();
    let mut shown: Vec<usize> = Vec::new();
    let mut live: Vec<usize> = Vec::new();
    for value in 0..12u32 {
        let handle = if value % 3 == 0 {
            let handle = model.insert_visibly(value);
            shown.push(handle);
            handle
        } else {
            model.insert(value)
        };
        live.push(handle);
    }
    for handle in [1usize, 4, 7] {
        assert_eq!(model.make_visible(handle), Ok(()));
        shown.push(handle);
    }
    for handle in [0usize, 4] {
        assert_eq!(model.make_invisible(handle), Ok(()));
        shown.retain(|h| *h != handle);
    }
    for handle in [3usize, 5, 7] {
        assert!(model.remove(handle).is_ok());
        shown.retain(|h| *h != handle);
        live.retain(|h| *h != handle);
    }
    let all = slots(&model);
    let count = model.visible_count();
    assert_eq!(count, shown.len());
    assert_eq!(sorted(all[..count].to_vec()), sorted(shown.clone()));
    let hidden: Vec<usize> = live.iter().copied().filter(|h| !shown.contains(h)).collect();
    assert_eq!(sorted(all[count..].to_vec()), sorted(hidden));
    for handle in live {
        assert_eq!(model.is_visible(handle), Ok(shown.contains(&handle)));
        assert_eq!(model.get(handle), Some(&(handle as u32)));
    }
}

#[test]
fn swap_by_handle_exchanges_slots() {
    let mut model = empty();
    let a = model.insert_visibly(1);
    let b = model.insert_visibly(2);
    let c = model.insert(3);
    assert_eq!(model.swap_by_handle(a, b), Ok(()));
    assert_eq!(slots(&model), vec![b, a, c]);
    assert_eq!(model.get(a), Some(&1));
    assert_eq!(model.get(b), Some(&2));
    assert_eq!(model.swap_by_handle(b, c), Ok(()));
    assert_eq!(slots(&model), vec![c, a, b]);
    assert_eq!(model.is_visible(c), Ok(true));
    assert_eq!(model.is_visible(b), Ok(false));
    assert_eq!(model.get(b), Some(&2));
    assert_eq!(model.get(c), Some(&3));
    assert_eq!(model.visible_count(), 2);
    assert_eq!(model.make_visible(b), Ok(()));
    assert_eq!(model.visible_count(), 3);
}

#[test]
fn swap_by_handle_with_itself_does_nothing() {
    let mut model = empty();
    let a = model.insert(1);
    let b = model.insert(2);
    assert_eq!(model.swap_by_handle(a, a), Ok(()));
    assert_eq!(model.swap_by_handle(9, 9), Ok(()));
    assert_eq!(slots(&model), vec![a, b]);
}

#[test]
fn get_mut_changes_one_record() {
    let mut model = empty();
    let a = model.insert(1);
    let b = model.insert_visibly(2);
    *model.get_mut(a).unwrap() = 100;
    assert_eq!(model.get(a), Some(&100));
    assert_eq!(model.get(b), Some(&2));
    assert_eq!(slots(&model), vec![b, a]);
    assert_eq!(model.visible_count(), 1);
}

#[test]
fn visible_instances_are_the_visible_prefix() {
    let mut model = empty();
    let a = model.insert(10);
    let b = model.insert(20);
    let c = model.insert(30);
    assert!(model.visible_instances().is_empty());
    assert_eq!(model.make_visible(c), Ok(()));
    assert_eq!(model.make_visible(b), Ok(()));
    let mut records = model.visible_instances().to_vec();
    records.sort();
    assert_eq!(records, vec![20, 30]);
    assert_eq!(model.visible_instances().len(), model.visible_count());
    assert_eq!(model.is_visible(a), Ok(false));
}

#[test]
fn sync_plans_exact_first_allocations() {
    let mut model = empty();
    model.insert_visibly(1);
    model.insert_visibly(2);
    model.insert(3);
    assert_eq!(
        model.update_vertexbuffer(),
        Ok(UploadStep::Create {
            size_in_bytes: 36,
            buffer_usage: BufferUsage::Vertex,
            memory_usage: MemoryUsage::CpuToGpu,
        })
    );
    assert_eq!(
        model.update_indexbuffer(),
        Ok(UploadStep::Create {
            size_in_bytes: 12,
            buffer_usage: BufferUsage::Index,
            memory_usage: MemoryUsage::CpuToGpu,
        })
    );
    assert_eq!(
        model.update_instancebuffer(),
        Ok(UploadStep::Create {
            size_in_bytes: 8,
            buffer_usage: BufferUsage::Instance,
            memory_usage: MemoryUsage::CpuToGpu,
        })
    );
}

#[test]
fn instance_sync_grows_with_the_visible_prefix_only() {
    let mut model = empty();
    let a = model.insert_visibly(1);
    let b = model.insert(2);
    let step = model.update_instancebuffer().unwrap();
    assert_eq!(complete_upload(model.instancebuffer_mut(), step, Some(70)), Ok(None));
    assert_eq!(model.instancebuffer().as_ref().unwrap().size_in_bytes, 4);
    assert_eq!(model.instancebuffer().as_ref().unwrap().buffer, 70);

    let c = model.insert(3);
    assert_eq!(model.update_instancebuffer(), Ok(UploadStep::Fill(FillStep::Write)));

    assert_eq!(model.make_visible(b), Ok(()));
    assert_eq!(model.make_visible(c), Ok(()));
    let step = model.update_instancebuffer().unwrap();
    assert_eq!(step, UploadStep::Fill(FillStep::Reallocate { size_in_bytes: 12 }));
    assert_eq!(complete_upload(model.instancebuffer_mut(), step, Some(71)), Ok(Some(70)));
    assert_eq!(model.instancebuffer().as_ref().unwrap().size_in_bytes, 12);
    assert_eq!(model.instancebuffer().as_ref().unwrap().buffer_usage, BufferUsage::Instance);

    assert_eq!(model.make_invisible(a), Ok(()));
    assert_eq!(model.update_instancebuffer(), Ok(UploadStep::Fill(FillStep::Write)));
    assert_eq!(model.instancebuffer().as_ref().unwrap().size_in_bytes, 12);
}

#[test]
fn failed_allocation_leaves_the_registry_alone() {
    let mut model = empty();
    let a = model.insert_visibly(1);
    let step = model.update_instancebuffer().unwrap();
    assert!(complete_upload(model.instancebuffer_mut(), step, None).is_err());
    assert!(model.instancebuffer().is_none());
    assert_eq!(model.get(a), Some(&1));
    assert_eq!(model.visible_count(), 1);
    let step = model.update_instancebuffer().unwrap();
    assert_eq!(complete_upload(model.instancebuffer_mut(), step, Some(5)), Ok(None));
    assert!(model.instancebuffer().is_some());
}

fn synced(model: &mut Registry) {
    let step = model.update_vertexbuffer().unwrap();
    complete_upload(model.vertexbuffer_mut(), step, Some(1)).unwrap();
    let step = model.update_indexbuffer().unwrap();
    complete_upload(model.indexbuffer_mut(), step, Some(2)).unwrap();
    let step = model.update_instancebuffer().unwrap();
    complete_upload(model.instancebuffer_mut(), step, Some(3)).unwrap();
}

#[test]
fn draw_counts_the_visible_instances() {
    let mut model = empty();
    let a = model.insert_visibly(1);
    let _b = model.insert(2);
    let c = model.insert_visibly(3);
    synced(&mut model);
    let call = model.draw().unwrap();
    assert_eq!(call.instance_count as usize, model.visible_count());
    assert_eq!(call.instance_count, 2);
    assert_eq!(call.index_count, 3);
    assert_eq!((call.first_index, call.vertex_offset, call.first_instance), (0, 0, 0));
    assert_eq!((*call.vertexbuffer, *call.indexbuffer, *call.instancebuffer), (1, 2, 3));
    let mut uploaded = model.visible_instances().to_vec();
    uploaded.sort();
    assert_eq!(uploaded, vec![*model.get(a).unwrap(), *model.get(c).unwrap()]);
}

#[test]
fn draw_needs_all_buffers_and_a_visible_instance() {
    let mut model = empty();
    model.insert_visibly(1);
    assert!(model.draw().is_none());
    let step = model.update_vertexbuffer().unwrap();
    complete_upload(model.vertexbuffer_mut(), step, Some(1)).unwrap();
    let step = model.update_indexbuffer().unwrap();
    complete_upload(model.indexbuffer_mut(), step, Some(2)).unwrap();
    assert!(model.draw().is_none());
    let step = model.update_instancebuffer().unwrap();
    complete_upload(model.instancebuffer_mut(), step, Some(3)).unwrap();
    assert!(model.draw().is_some());
    assert_eq!(model.make_invisible(0), Ok(()));
    assert!(model.draw().is_none());
}
