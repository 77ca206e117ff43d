use nccl_harness::manifest::{
    completion_outcome, manifest_entry_for, pre_run_decision, ManifestTracker, PreRunDecision,
    ResultDescription,
};
use nccl_harness::types::MscclExperimentParams;

fn descriptor() -> MscclExperimentParams {
    MscclExperimentParams {
        cuda_path: String::from("/usr/local/cuda"),
        efa_path: None,
        aws_ofi_nccl_path: None,
        openmpi_path: String::from("/opt/mpi"),
        msccl_path: String::from("/opt/msccl"),
        executable: String::from("/opt/nccl-tests/all_reduce_perf"),
        algorithm: String::from("ring"),
        ms_xml_file: String::from("/xmls/allreduce_ring_node4_gpu32_mcl4_mck2_gan0.xml"),
        ms_channels: 4,
        ms_chunks: 2,
        gpu_as_node: false,
        num_nodes: 4,
        total_gpus: 32,
        buffer_size: 2,
        mpi_hostfile_path: String::from("/etc/hostfile"),
        mpi_proc_per_node: 8,
        nc_collective: String::from("all-reduce"),
        nc_op: String::from("sum"),
        nc_dtype: String::from("float"),
        nc_num_threads: 1,
        nc_num_gpus: 1,
        nc_min_bytes: String::from("64K"),
        nc_max_bytes: String::from("16G"),
        nc_step_factor: String::from("2"),
        nc_num_iters: 100,
        nc_num_warmup_iters: 20,
        nccl_debug_level: String::from("INFO"),
        nccl_algo: String::from("Tree,Ring"),
    }
}

#[test]
fn skip_finished_with_existing_output_skips_before_running() {
    // Scenario: skip-finished enabled and the result artifact pre-exists:
    // the decision is Skipped, so the run collaborator is never invoked.
    let blacklist: Vec<String> = Vec::new();
    let d = pre_run_decision(
        "/xmls/allreduce_ring_node4_gpu32_mcl4_mck2_gan0.xml",
        &blacklist,
        true,
        true,
    );
    assert_eq!(d, PreRunDecision::Skipped);
    assert_ne!(d, PreRunDecision::Run);
}

#[test]
fn skip_policy_requires_both_flag_and_existing_output() {
    let blacklist: Vec<String> = Vec::new();
    assert_eq!(
        pre_run_decision("a.xml", &blacklist, false, true),
        PreRunDecision::Run
    );
    assert_eq!(
        pre_run_decision("a.xml", &blacklist, true, false),
        PreRunDecision::Run
    );
}

#[test]
fn blacklist_check_precedes_the_skip_check() {
    let blacklist = vec![String::from("bad.xml"), String::from("worse.xml")];
    assert_eq!(
        pre_run_decision("worse.xml", &blacklist, true, true),
        PreRunDecision::Blacklisted
    );
    assert_eq!(
        pre_run_decision("fine.xml", &blacklist, false, false),
        PreRunDecision::Run
    );
}

#[test]
fn completion_outcomes_follow_the_documented_rule() {
    // Nonzero exit without the ignore policy is a failure.
    assert_eq!(
        completion_outcome(false, false, 12),
        ResultDescription::Failure
    );
    // The ignore policy lets the row count decide.
    assert_eq!(
        completion_outcome(false, true, 12),
        ResultDescription::Success
    );
    assert_eq!(
        completion_outcome(false, true, 0),
        ResultDescription::PartialFailure
    );
    // A successful exit with rows is a success.
    assert_eq!(
        completion_outcome(true, false, 1),
        ResultDescription::Success
    );
    // The explicit rule for the ambiguous case: a successful exit that
    // produced zero parsed rows is a partial failure, never a success.
    assert_eq!(
        completion_outcome(true, false, 0),
        ResultDescription::PartialFailure
    );
    assert_eq!(
        completion_outcome(true, true, 0),
        ResultDescription::PartialFailure
    );
}

#[test]
fn tracker_appends_in_order_and_never_loses_an_entry() {
    let d = descriptor();
    let mut t = ManifestTracker::new();
    assert_eq!(t.len(), 0);
    t.record(manifest_entry_for(&d, ResultDescription::Skipped));
    t.record(manifest_entry_for(&d, ResultDescription::Failure));
    t.record(manifest_entry_for(&d, ResultDescription::Success));
    assert_eq!(t.len(), 3);
    let es = t.entries();
    assert_eq!(es[0].overall_result, ResultDescription::Skipped);
    assert_eq!(es[1].overall_result, ResultDescription::Failure);
    assert_eq!(es[2].overall_result, ResultDescription::Success);
    assert_eq!(es[0].collective, "all-reduce");
    assert_eq!(es[0].op, "sum");
    assert_eq!(es[0].dtype, "float");
    assert_eq!(es[0].algorithm, "ring");
    assert_eq!(es[0].num_channels, 4);
    assert_eq!(es[0].num_chunks, 2);
    assert_eq!(es[0].num_gpus, 32);
    assert_eq!(es[0].buffer_size_factor, 2);
}

#[test]
fn outcome_labels_match_the_report_vocabulary() {
    assert_eq!(ResultDescription::Success.describe(), "Success");
    assert_eq!(
        ResultDescription::PartialFailure.describe(),
        "Partial Failure"
    );
    assert_eq!(ResultDescription::Failure.describe(), "Failure");
    assert_eq!(ResultDescription::Skipped.describe(), "Skipped");
    assert_eq!(ResultDescription::Blacklisted.describe(), "Blacklisted");
}
