use nccl_harness::naming::{collective_to_test_exe, exp_params_to_output_filename, params_to_xml};
use nccl_harness::types::{HarnessError, MscclExperimentParams};

fn sample_params() -> MscclExperimentParams {
    MscclExperimentParams {
        cuda_path: String::from("/usr/local/cuda"),
        efa_path: None,
        aws_ofi_nccl_path: None,
        openmpi_path: String::from("/opt/mpi"),
        msccl_path: String::from("/opt/msccl"),
        executable: String::from("/opt/nccl-tests/all_reduce_perf"),
        algorithm: String::from("ring"),
        ms_xml_file: String::from("/xmls/allreduce_ring_node4_gpu32_mcl4_mck2_gan0.xml"),
        ms_channels: 4,
        ms_chunks: 2,
        gpu_as_node: false,
        num_nodes: 4,
        total_gpus: 32,
        buffer_size: 2,
        mpi_hostfile_path: String::from("/etc/hostfile"),
        mpi_proc_per_node: 8,
        nc_collective: String::from("all-reduce"),
        nc_op: String::from("sum"),
        nc_dtype: String::from("float"),
        nc_num_threads: 1,
        nc_num_gpus: 1,
        nc_min_bytes: String::from("64K"),
        nc_max_bytes: String::from("16G"),
        nc_step_factor: String::from("2"),
        nc_num_iters: 100,
        nc_num_warmup_iters: 20,
        nccl_debug_level: String::from("INFO"),
        nccl_algo: String::from("Tree,Ring"),
    }
}

#[test]
fn output_filename_follows_the_convention() {
    let p = sample_params();
    let name = exp_params_to_output_filename(&p, 1, "log");
    assert_eq!(name, "all-reduce_ring_node4_gpu32_mcl4_mck2_buf2_gan0_i1.log");
    let name = exp_params_to_output_filename(&p, 0, "stderr");
    assert_eq!(name, "all-reduce_ring_node4_gpu32_mcl4_mck2_buf2_gan0_i0.stderr");
}

#[test]
fn output_filename_marks_gpu_as_node() {
    let mut p = sample_params();
    p.gpu_as_node = true;
    let name = exp_params_to_output_filename(&p, 3, "log");
    assert_eq!(name, "all-reduce_ring_node4_gpu32_mcl4_mck2_buf2_gan1_i3.log");
}

#[test]
fn naming_is_deterministic_across_calls() {
    let p = sample_params();
    let a = exp_params_to_output_filename(&p, 1, "log");
    let b = exp_params_to_output_filename(&p, 1, "log");
    // A second call in a different order still yields the identical name.
    let _other = exp_params_to_output_filename(&p, 2, "stderr");
    let c = exp_params_to_output_filename(&p, 1, "log");
    assert_eq!(a, b);
    assert_eq!(a, c);
}

#[test]
fn xml_name_converts_the_collective_but_not_the_algorithm() {
    // The collective token is converted; the algorithm appears verbatim, and
    // the op, dtype and repetition are deliberately omitted.
    let name = params_to_xml("all-reduce", "ring", 4, 32, 4, 2, false).unwrap();
    assert_eq!(name, "allreduce_ring_node4_gpu32_mcl4_mck2_gan0.xml");
    let name = params_to_xml("reduce-scatter", "binary-tree", 2, 16, 8, 1, true).unwrap();
    assert_eq!(name, "reducescatter_binary-tree_node2_gpu16_mcl8_mck1_gan1.xml");
}

#[test]
fn unknown_collective_is_a_fatal_error() {
    match params_to_xml("all-of-them", "ring", 4, 32, 4, 2, false) {
        Err(HarnessError::UnknownCollective(c)) => assert_eq!(c, "all-of-them"),
        _ => panic!("expected an unknown-collective error"),
    }
    match collective_to_test_exe("widget") {
        Err(HarnessError::UnknownCollective(c)) => assert_eq!(c, "widget"),
        _ => panic!("expected an unknown-collective error"),
    }
}

#[test]
fn unknown_algorithm_is_a_fatal_error() {
    match params_to_xml("all-reduce", "osmosis", 4, 32, 4, 2, false) {
        Err(HarnessError::UnknownAlgorithm(a)) => assert_eq!(a, "osmosis"),
        _ => panic!("expected an unknown-algorithm error"),
    }
}

#[test]
fn every_known_collective_maps_to_its_executable() {
    let pairs = [
        ("all-reduce", "all_reduce_perf"),
        ("all-gather", "all_gather_perf"),
        ("all-to-all", "alltoall_perf"),
        ("broadcast", "broadcast_perf"),
        ("gather", "gather_perf"),
        ("hypercube", "hypercube_perf"),
        ("reduce", "reduce_perf"),
        ("reduce-scatter", "reduce_scatter_perf"),
        ("scatter", "scatter_perf"),
        ("sendrecv", "sendrecv_perf"),
    ];
    for (collective, exe) in pairs {
        assert_eq!(collective_to_test_exe(collective).unwrap(), exe);
    }
}

#[test]
fn error_descriptions_name_the_offender() {
    let e = HarnessError::UnknownCollective(String::from("x"));
    assert_eq!(e.describe(), "unknown collective: x");
    let e = HarnessError::UnknownAlgorithm(String::from("y"));
    assert_eq!(e.describe(), "unknown communication algorithm: y");
    let e = HarnessError::MissingArtifact(String::from("z.xml"));
    assert_eq!(e.describe(), "companion artifact not found: z.xml");
}
