use surf_ace_compositor::reclaim::{OutputClaim, PipelineRef, ReclaimError, ReclaimLedger};

fn pipeline(id: u64, pending_atomic_modeset: bool) -> PipelineRef {
    PipelineRef { id, pending_atomic_modeset }
}

fn claim(device_id: u64, path: &str) -> OutputClaim<String> {
    OutputClaim { device_id, output: path.to_string() }
}

/// The old output on device 1 loses its claim; a replacement is prepared on
/// `replacement_device_id` with a pipeline whose modeset is pending.
fn seed_reclaim_lifecycle(backend: &mut ReclaimLedger<String>, replacement_device_id: u64) {
    backend.open_device(1);
    backend.install_pipeline(1, pipeline(10, false), false);
    backend.record_claim(claim(1, "/dev/dri/card-test-old"), false);
    backend.mark_claim_lost();

    backend.open_device(replacement_device_id);
    backend.install_pipeline(replacement_device_id, pipeline(20, true), true);
    backend.record_claim(claim(replacement_device_id, "/dev/dri/card-test-new"), true);
}

#[test]
fn host_backend_same_and_cross_device_reclaim_failure_restore_the_retired_claim() {
    for replacement_device_id in [1, 2] {
        let mut backend = ReclaimLedger::new();
        seed_reclaim_lifecycle(&mut backend, replacement_device_id);
        backend.arm_prepared_reclaim_for_presentation().unwrap();
        assert_eq!(backend.claimed_output().unwrap().device_id, replacement_device_id);

        let destroyed = backend.discard_unactivated_reclaim();

        assert_eq!(destroyed, vec![(replacement_device_id, pipeline(20, true))]);
        assert_eq!(backend.claimed_output().unwrap().device_id, 1);
        assert!(!backend.has_retired_claim());
        assert_eq!(backend.device_pipelines(1).unwrap().claimed, Some(pipeline(10, false)));
        if replacement_device_id != 1 {
            assert!(backend.device_pipelines(replacement_device_id).unwrap().claimed.is_none());
        }
    }
}

#[test]
fn host_backend_same_and_cross_device_reclaim_success_retires_old_resources() {
    for replacement_device_id in [1, 2] {
        let mut backend = ReclaimLedger::new();
        seed_reclaim_lifecycle(&mut backend, replacement_device_id);
        backend.arm_prepared_reclaim_for_presentation().unwrap();

        let destroyed = backend.finish_reclaim_activation();

        assert_eq!(destroyed, vec![(1, pipeline(10, false))]);
        assert_eq!(backend.claimed_output().unwrap().device_id, replacement_device_id);
        assert!(!backend.has_retired_claim());
        assert!(backend.device_pipelines(replacement_device_id).unwrap().claimed.is_some());
        if replacement_device_id != 1 {
            assert!(backend.device_pipelines(1).unwrap().claimed.is_none());
        }
    }
}

#[test]
fn arming_without_a_prepared_reclaim_or_its_device_fails() {
    let mut backend: ReclaimLedger<String> = ReclaimLedger::new();
    assert_eq!(backend.arm_prepared_reclaim_for_presentation(), Err(ReclaimError::NoPreparedReclaim));
    backend.record_claim(claim(7, "/dev/dri/gone"), true);
    assert_eq!(backend.arm_prepared_reclaim_for_presentation(), Err(ReclaimError::PreparedDeviceGone));
    assert!(backend.prepared_reclaim_output().is_none());
    backend.open_device(7);
    backend.record_claim(claim(7, "/dev/dri/open"), true);
    assert_eq!(backend.arm_prepared_reclaim_for_presentation(), Err(ReclaimError::PreparedPipelineGone));
}

#[test]
fn a_committed_claim_survives_discard_and_a_prepared_one_is_dropped() {
    let mut backend = ReclaimLedger::new();
    backend.open_device(3);
    backend.install_pipeline(3, pipeline(30, true), false);
    backend.record_claim(claim(3, "/dev/dri/card3"), false);
    backend.mark_modeset_committed(3);
    assert_eq!(backend.device_pipelines(3).unwrap().claimed, Some(pipeline(30, false)));
    assert!(backend.discard_unactivated_reclaim().is_empty());
    assert_eq!(backend.claimed_output().unwrap().device_id, 3);

    backend.install_pipeline(3, pipeline(31, true), true);
    backend.record_claim(claim(3, "/dev/dri/card3"), true);
    assert_eq!(backend.discard_unactivated_reclaim(), vec![(3, pipeline(31, true))]);
    assert!(backend.prepared_reclaim_output().is_none());
    assert_eq!(backend.claimed_output().unwrap().device_id, 3);
}

#[test]
fn closing_a_device_destroys_its_pipelines_and_drops_its_claims() {
    let mut backend = ReclaimLedger::new();
    backend.open_device(4);
    backend.install_pipeline(4, pipeline(40, false), false);
    backend.record_claim(claim(4, "/dev/dri/card4"), false);
    backend.install_pipeline(4, pipeline(41, true), true);
    assert_eq!(backend.take_prepared_pipeline(4), Some(pipeline(41, true)));
    backend.install_pipeline(4, pipeline(42, true), true);
    assert_eq!(backend.close_device(4), vec![pipeline(40, false), pipeline(42, true)]);
    assert!(backend.claimed_output().is_none());
    assert!(backend.device_pipelines(4).is_none());
    assert!(backend.close_device(4).is_empty());
}
