use nccl_harness::permutation::{
    generate_experiments, permutation_of, validate_sweep, AlgorithmRule, ChannelChunk,
    HarnessConfig, SweepDimensions,
};
use nccl_harness::types::HarnessError;

fn config() -> HarnessConfig {
    HarnessConfig {
        cuda_path: String::from("/usr/local/cuda"),
        efa_path: None,
        aws_ofi_nccl_path: None,
        openmpi_path: String::from("/opt/mpi"),
        msccl_path: String::from("/opt/msccl"),
        nccl_test_bins: String::from("/opt/nccl-tests/build"),
        msccl_xmls_dir: String::from("/xmls"),
        mpi_hostfile_path: String::from("/etc/hostfile"),
        num_nodes: 4,
        gpus_per_node: 8,
        nc_num_threads: 1,
        nc_num_gpus: 1,
        nc_min_bytes: String::from("64K"),
        nc_max_bytes: String::from("16G"),
        nc_step_factor: String::from("2"),
        nc_num_iters: 100,
        nc_num_warmup_iters: 20,
        nccl_debug_level: String::from("INFO"),
        nccl_algo: String::from("Tree,Ring"),
    }
}

fn ring_rule() -> AlgorithmRule {
    // Chunk-major enumeration of ring's allowed table: chunks 1 and 2,
    // channels 4, 8 and 16.
    let mut allowed = Vec::new();
    for chunks in [1u64, 2] {
        for channels in [4u64, 8, 16] {
            allowed.push(ChannelChunk { channels, chunks });
        }
    }
    AlgorithmRule { name: String::from("ring"), allowed }
}

fn sweep() -> SweepDimensions {
    SweepDimensions {
        collectives: vec![String::from("all-reduce")],
        buffer_sizes: vec![2],
        data_types: vec![String::from("float")],
        reduction_ops: vec![String::from("sum")],
        algorithms: vec![ring_rule()],
        gpus_as_nodes: vec![false],
    }
}

fn all_ring_xmls() -> Vec<String> {
    let mut v = Vec::new();
    for chunks in [1u64, 2] {
        for channels in [4u64, 8, 16] {
            v.push(format!(
                "allreduce_ring_node4_gpu32_mcl{}_mck{}_gan0.xml",
                channels, chunks
            ));
        }
    }
    v
}

#[test]
fn generates_the_full_ordered_product() {
    let descs = generate_experiments(&config(), &sweep(), &all_ring_xmls(), true).unwrap();
    assert_eq!(descs.len(), 6);
    // Fixed nested order: chunk-major over the allowed table, then the flag.
    let expect = [(4u64, 1u64), (8, 1), (16, 1), (4, 2), (8, 2), (16, 2)];
    for (d, (channels, chunks)) in descs.iter().zip(expect.iter()) {
        assert_eq!(d.ms_channels, *channels);
        assert_eq!(d.ms_chunks, *chunks);
        assert_eq!(d.nc_collective, "all-reduce");
        assert_eq!(d.algorithm, "ring");
        assert_eq!(d.total_gpus, 32);
        assert_eq!(d.executable, "/opt/nccl-tests/build/all_reduce_perf");
        assert_eq!(d.mpi_proc_per_node, 8);
        assert_eq!(d.buffer_size, 2);
    }
    assert_eq!(
        descs[0].ms_xml_file,
        "/xmls/allreduce_ring_node4_gpu32_mcl4_mck1_gan0.xml"
    );
}

#[test]
fn generation_is_deterministic() {
    let a = generate_experiments(&config(), &sweep(), &all_ring_xmls(), true).unwrap();
    let b = generate_experiments(&config(), &sweep(), &all_ring_xmls(), true).unwrap();
    assert_eq!(a.len(), b.len());
    for (x, y) in a.iter().zip(b.iter()) {
        assert_eq!(x.ms_xml_file, y.ms_xml_file);
        assert_eq!(x.ms_channels, y.ms_channels);
        assert_eq!(x.ms_chunks, y.ms_chunks);
    }
}

#[test]
fn chunk_outside_the_allowed_table_is_never_generated() {
    // Scenario: chunk 64 is not in ring's allowed table, so no descriptor
    // carries it, whatever artifacts exist.
    let mut xmls = all_ring_xmls();
    xmls.push(String::from("allreduce_ring_node4_gpu32_mcl4_mck64_gan0.xml"));
    let descs = generate_experiments(&config(), &sweep(), &xmls, true).unwrap();
    assert_eq!(descs.len(), 6);
    assert!(descs.iter().all(|d| d.ms_chunks != 64));
}

#[test]
fn strict_mode_fails_fast_on_a_missing_artifact() {
    let mut xmls = all_ring_xmls();
    xmls.retain(|n| !n.contains("mcl8_mck2"));
    match generate_experiments(&config(), &sweep(), &xmls, true) {
        Err(HarnessError::MissingArtifact(n)) => {
            assert_eq!(n, "allreduce_ring_node4_gpu32_mcl8_mck2_gan0.xml");
        }
        _ => panic!("expected a missing-artifact error"),
    }
}

#[test]
fn relaxed_mode_omits_the_tuple_with_a_missing_artifact() {
    let mut xmls = all_ring_xmls();
    xmls.retain(|n| !n.contains("mcl8_mck2"));
    let descs = generate_experiments(&config(), &sweep(), &xmls, false).unwrap();
    assert_eq!(descs.len(), 5);
    assert!(descs
        .iter()
        .all(|d| !(d.ms_channels == 8 && d.ms_chunks == 2)));
}

#[test]
fn unknown_collective_aborts_generation() {
    let mut s = sweep();
    s.collectives.push(String::from("everything-to-everyone"));
    match generate_experiments(&config(), &s, &all_ring_xmls(), false) {
        Err(HarnessError::UnknownCollective(c)) => {
            assert_eq!(c, "everything-to-everyone");
        }
        _ => panic!("expected an unknown-collective error"),
    }
    assert!(validate_sweep(&s).is_err());
}

#[test]
fn unknown_algorithm_aborts_generation() {
    let mut s = sweep();
    s.algorithms.push(AlgorithmRule {
        name: String::from("gossip"),
        allowed: vec![ChannelChunk { channels: 1, chunks: 1 }],
    });
    match generate_experiments(&config(), &s, &all_ring_xmls(), false) {
        Err(HarnessError::UnknownAlgorithm(a)) => assert_eq!(a, "gossip"),
        _ => panic!("expected an unknown-algorithm error"),
    }
}

#[test]
fn two_algorithms_enumerate_in_rule_order() {
    let mut s = sweep();
    let bt = AlgorithmRule {
        name: String::from("binary-tree"),
        allowed: vec![ChannelChunk { channels: 4, chunks: 1 }],
    };
    s.algorithms.insert(0, bt);
    let mut xmls = all_ring_xmls();
    xmls.push(String::from("allreduce_binary-tree_node4_gpu32_mcl4_mck1_gan0.xml"));
    let descs = generate_experiments(&config(), &s, &xmls, true).unwrap();
    assert_eq!(descs.len(), 7);
    assert_eq!(descs[0].algorithm, "binary-tree");
    assert!(descs[1..].iter().all(|d| d.algorithm == "ring"));
}

#[test]
fn permutation_summary_matches_the_descriptor() {
    let descs = generate_experiments(&config(), &sweep(), &all_ring_xmls(), true).unwrap();
    let p = permutation_of(&descs[0]).unwrap();
    assert_eq!(p.collective_exe, "all_reduce_perf");
    assert_eq!(p.reduction_op, "sum");
    assert_eq!(p.data_type, "float");
    assert_eq!(p.comm_algorithm, "ring");
    assert_eq!(p.msccl_channel.as_deref(), Some("4"));
    assert_eq!(p.msccl_chunk.as_deref(), Some("1"));
    assert_eq!(p.buffer_size.as_deref(), Some("2"));
}

#[test]
fn every_descriptor_pair_is_in_its_algorithm_table() {
    let mut s = sweep();
    s.algorithms.push(AlgorithmRule {
        name: String::from("binary-tree"),
        allowed: vec![
            ChannelChunk { channels: 4, chunks: 1 },
            ChannelChunk { channels: 8, chunks: 16 },
        ],
    });
    let mut xmls = all_ring_xmls();
    xmls.push(String::from("allreduce_binary-tree_node4_gpu32_mcl4_mck1_gan0.xml"));
    xmls.push(String::from("allreduce_binary-tree_node4_gpu32_mcl8_mck16_gan0.xml"));
    let descs = generate_experiments(&config(), &s, &xmls, true).unwrap();
    assert_eq!(descs.len(), 8);
    for d in &descs {
        let rule = s
            .algorithms
            .iter()
            .find(|r| r.name == d.algorithm)
            .expect("descriptor names a configured algorithm");
        assert!(rule.allowed.iter().any(|p| p.channels == d.ms_channels && p.chunks == d.ms_chunks));
    }
}
