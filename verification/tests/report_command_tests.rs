use nccl_harness::command::{build_ld_library_path, build_mpirun_command};
use nccl_harness::manifest::{manifest_entry_for, ResultDescription};
use nccl_harness::report::{
    config_table_lines, manifest_entry_cells, manifest_header_cells, pad_center, pad_left,
    pad_right,
};
use nccl_harness::text::{
    i64_to_string, join_tokens, parse_i64_str, parse_u64_str, split_whitespace_tokens, str_eq,
    u64_to_string,
};
use nccl_harness::types::MscclExperimentParams;

fn descriptor() -> MscclExperimentParams {
    MscclExperimentParams {
        cuda_path: String::from("/usr/local/cuda"),
        efa_path: None,
        aws_ofi_nccl_path: None,
        openmpi_path: String::from("/opt/mpi"),
        msccl_path: String::from("/opt/msccl"),
        executable: String::from("/opt/nccl-tests/build/all_reduce_perf"),
        algorithm: String::from("ring"),
        ms_xml_file: String::from("/xmls/allreduce_ring_node4_gpu32_mcl4_mck2_gan0.xml"),
        ms_channels: 4,
        ms_chunks: 2,
        gpu_as_node: false,
        num_nodes: 4,
        total_gpus: 32,
        buffer_size: 2,
        mpi_hostfile_path: String::from("/etc/hostfile"),
        mpi_proc_per_node: 8,
        nc_collective: String::from("all-reduce"),
        nc_op: String::from("sum"),
        nc_dtype: String::from("float"),
        nc_num_threads: 1,
        nc_num_gpus: 1,
        nc_min_bytes: String::from("64K"),
        nc_max_bytes: String::from("16G"),
        nc_step_factor: String::from("2"),
        nc_num_iters: 100,
        nc_num_warmup_iters: 20,
        nccl_debug_level: String::from("INFO"),
        nccl_algo: String::from("Tree,Ring"),
    }
}

#[test]
fn padding_matches_fixed_width_formatting() {
    assert_eq!(pad_right("ab", 5), "ab   ");
    assert_eq!(pad_left("ab", 5), "   ab");
    assert_eq!(pad_center("ab", 5), " ab  ");
    assert_eq!(pad_center("ab", 6), "  ab  ");
    // Wider content is kept whole.
    assert_eq!(pad_right("abcdef", 3), "abcdef");
    assert_eq!(pad_left("abcdef", 3), "abcdef");
    assert_eq!(pad_center("abcdef", 3), "abcdef");
}

#[test]
fn config_table_renders_the_fixed_layout() {
    let configs = vec![descriptor()];
    let lines = config_table_lines(&configs);
    assert_eq!(lines.len(), 5);
    assert_eq!(
        lines[1],
        "|         collective         |    op    |     dtype     |              algorithm:               |   channels   |    chunks    |"
    );
    assert_eq!(
        lines[3],
        "| collective: all-reduce     | op: sum  | dtype: float  | algorithm:            ring            | channels:  4 | chunks:    2 |"
    );
    // The last row is followed by the closing border without dividers.
    assert!(lines[4].starts_with("|---"));
    assert!(!lines[4].contains('+'));
}

#[test]
fn manifest_cells_render_in_column_order() {
    let e = manifest_entry_for(&descriptor(), ResultDescription::Blacklisted);
    let cells = manifest_entry_cells(&e);
    assert_eq!(
        cells,
        vec!["all-reduce", "sum", "float", "ring", "4", "2", "32", "2", "Blacklisted"]
    );
    let header = manifest_header_cells();
    assert_eq!(header.len(), 9);
    assert_eq!(header[0], "Collective");
    assert_eq!(header[8], "Overall Result");
}

#[test]
fn ld_library_path_lists_the_installations_in_order() {
    let mut d = descriptor();
    assert_eq!(
        build_ld_library_path(&d),
        "/usr/local/cuda/lib64:/usr/local/cuda/lib:/opt/mpi/lib64:/opt/mpi/lib:/opt/msccl/lib64:/opt/msccl/lib"
    );
    d.efa_path = Some(String::from("/opt/efa"));
    d.aws_ofi_nccl_path = Some(String::from("/opt/ofi"));
    assert_eq!(
        build_ld_library_path(&d),
        "/usr/local/cuda/lib64:/usr/local/cuda/lib:/opt/mpi/lib64:/opt/mpi/lib:/opt/msccl/lib64:/opt/msccl/lib:/opt/efa/lib:/opt/ofi/lib"
    );
}

#[test]
fn mpirun_command_carries_every_parameter() {
    let d = descriptor();
    let (program, args) = build_mpirun_command(&d, false);
    assert_eq!(program, "mpirun");
    assert_eq!(args[0], "--hostfile");
    assert_eq!(args[1], "/etc/hostfile");
    assert_eq!(args[3], "ppr:8:node");
    assert!(args[5].starts_with("LD_LIBRARY_PATH=/usr/local/cuda/lib64:"));
    assert_eq!(
        args[7],
        "MSCCL_XML_FILES=/xmls/allreduce_ring_node4_gpu32_mcl4_mck2_gan0.xml"
    );
    assert_eq!(args[11], "NCCL_DEBUG=INFO");
    assert_eq!(args[13], "NCCL_ALGO=Tree,Ring");
    assert_eq!(args[26], "/opt/nccl-tests/build/all_reduce_perf");
    let tail: Vec<&str> = args[27..].iter().map(|s| s.as_str()).collect();
    assert_eq!(
        tail,
        vec![
            "--nthreads",
            "1",
            "--ngpus",
            "1",
            "--minbytes",
            "64K",
            "--maxbytes",
            "16G",
            "--stepfactor",
            "2",
            "--op",
            "sum",
            "--datatype",
            "float",
            "--iters",
            "100",
            "--warmup_iters",
            "20"
        ]
    );
}

#[test]
fn dry_run_echoes_instead_of_launching() {
    let (program, args) = build_mpirun_command(&descriptor(), true);
    assert_eq!(program, "echo");
    assert_eq!(args[0], "--hostfile");
}

#[test]
fn decimal_rendering_and_parsing_are_exact() {
    assert_eq!(u64_to_string(0), "0");
    assert_eq!(u64_to_string(1048576), "1048576");
    assert_eq!(u64_to_string(u64::MAX), "18446744073709551615");
    assert_eq!(i64_to_string(-1), "-1");
    assert_eq!(i64_to_string(0), "0");
    assert_eq!(i64_to_string(i64::MIN), "-9223372036854775808");
    assert_eq!(parse_u64_str("1048576"), Some(1048576));
    assert_eq!(parse_u64_str("+7"), Some(7));
    assert_eq!(parse_u64_str("007"), Some(7));
    assert_eq!(parse_u64_str(""), None);
    assert_eq!(parse_u64_str("+"), None);
    assert_eq!(parse_u64_str("-1"), None);
    assert_eq!(parse_u64_str("18446744073709551615"), Some(u64::MAX));
    assert_eq!(parse_u64_str("18446744073709551616"), None);
    assert_eq!(parse_i64_str("-1"), Some(-1));
    assert_eq!(parse_i64_str("+42"), Some(42));
    assert_eq!(parse_i64_str("-9223372036854775808"), Some(i64::MIN));
    assert_eq!(parse_i64_str("-9223372036854775809"), None);
    assert_eq!(parse_i64_str("9223372036854775807"), Some(i64::MAX));
    assert_eq!(parse_i64_str("9223372036854775808"), None);
    assert_eq!(parse_i64_str("1e3"), None);
}

#[test]
fn tokenizing_and_joining_invert_each_other() {
    let toks = split_whitespace_tokens("  a  bb\tccc \u{3000} d ");
    assert_eq!(toks, vec!["a", "bb", "ccc", "d"]);
    assert_eq!(join_tokens(&toks), "a bb ccc d");
    let empty: Vec<String> = Vec::new();
    assert_eq!(join_tokens(&empty), "");
    assert!(split_whitespace_tokens("   ").is_empty());
    assert!(str_eq("same", "same"));
    assert!(!str_eq("same", "sane"));
}
