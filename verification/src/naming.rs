//! The naming scheme: pure, deterministic mapping from experiment parameters
//! to artifact filenames, used both when probing for companion artifacts and
//! when naming a run's outputs, so that the two always agree.

use vstd::prelude::*;
use vstd::string::*;

use crate::text::u64_digits;
use crate::text::u64_to_string;
use crate::text::str_eq;
use crate::types::ExperimentParamsModel;
use crate::types::HarnessError;
use crate::types::MscclExperimentParams;

verus! {

/// The benchmark executable that measures a given collective, for the closed
/// set of known collective names.
pub open spec fn collective_exe_spec(c: Seq<char>) -> Option<Seq<char>> {
    if c == "all-reduce"@ {
        Some("all_reduce_perf"@)
    } else if c == "all-gather"@ {
        Some("all_gather_perf"@)
    } else if c == "all-to-all"@ {
        Some("alltoall_perf"@)
    } else if c == "broadcast"@ {
        Some("broadcast_perf"@)
    } else if c == "gather"@ {
        Some("gather_perf"@)
    } else if c == "hypercube"@ {
        Some("hypercube_perf"@)
    } else if c == "reduce"@ {
        Some("reduce_perf"@)
    } else if c == "reduce-scatter"@ {
        Some("reduce_scatter_perf"@)
    } else if c == "scatter"@ {
        Some("scatter_perf"@)
    } else if c == "sendrecv"@ {
        Some("sendrecv_perf"@)
    } else {
        None
    }
}

/// The collective's token inside a companion-artifact filename, for the same
/// closed set of collective names.
pub open spec fn xml_collective_spec(c: Seq<char>) -> Option<Seq<char>> {
    if c == "all-reduce"@ {
        Some("allreduce"@)
    } else if c == "all-gather"@ {
        Some("allgather"@)
    } else if c == "all-to-all"@ {
        Some("alltoall"@)
    } else if c == "broadcast"@ {
        Some("broadcast"@)
    } else if c == "gather"@ {
        Some("gather"@)
    } else if c == "hypercube"@ {
        Some("hypercube"@)
    } else if c == "reduce"@ {
        Some("reduce"@)
    } else if c == "reduce-scatter"@ {
        Some("reducescatter"@)
    } else if c == "scatter"@ {
        Some("scatter"@)
    } else if c == "sendrecv"@ {
        Some("sendrecv"@)
    } else {
        None
    }
}

/// The closed set of known communication algorithm identifiers.
pub open spec fn is_known_algorithm(a: Seq<char>) -> bool {
    a == "binary-tree"@ || a == "binomial-tree"@ || a == "recursive-doubling"@ || a
        == "recursive-halving-doubling"@ || a == "ring"@ || a == "trinomial-tree"@
}

/// The companion-artifact filename for one sweep point. Deliberately omits
/// the reduction op, data type and repetition index: sweep points that differ
/// only in those fields share one companion artifact by design.
pub open spec fn xml_name_spec(
    collective: Seq<char>,
    algorithm: Seq<char>,
    num_nodes: u64,
    num_gpus: u64,
    msccl_channels: u64,
    msccl_chunks: u64,
    gpu_as_node: bool,
) -> Seq<char> {
    xml_collective_spec(collective).unwrap() + "_"@ + algorithm + "_node"@ + u64_digits(
        num_nodes as nat,
    ) + "_gpu"@ + u64_digits(num_gpus as nat) + "_mcl"@ + u64_digits(msccl_channels as nat)
        + "_mck"@ + u64_digits(msccl_chunks as nat) + "_gan"@ + (if gpu_as_node {
        "1"@
    } else {
        "0"@
    }) + ".xml"@
}

/// The output filename for one attempt of one sweep point, with the given
/// extension.
pub open spec fn output_name_spec(p: ExperimentParamsModel, iteration: u64, ext: Seq<char>) -> Seq<
    char,
> {
    p.nc_collective + "_"@ + p.algorithm + "_node"@ + u64_digits(p.num_nodes as nat) + "_gpu"@
        + u64_digits(p.total_gpus as nat) + "_mcl"@ + u64_digits(p.ms_channels as nat) + "_mck"@
        + u64_digits(p.ms_chunks as nat) + "_buf"@ + u64_digits(p.buffer_size as nat) + "_gan"@ + (
    if p.gpu_as_node {
        "1"@
    } else {
        "0"@
    }) + "_i"@ + u64_digits(iteration as nat) + "."@ + ext
}

/// The naming scheme is deterministic and pure: the artifact names are
/// functions of the parameters, the repetition index and the artifact kind
/// alone, so repeated calls on equal inputs yield equal names, independent of
/// call order or any other state.
pub proof fn lemma_naming_deterministic(
    p1: ExperimentParamsModel,
    p2: ExperimentParamsModel,
    i1: u64,
    i2: u64,
    e1: Seq<char>,
    e2: Seq<char>,
)
    requires
        p1 == p2,
        i1 == i2,
        e1 == e2,
    ensures
        output_name_spec(p1, i1, e1) == output_name_spec(p2, i2, e2),
        xml_name_spec(
            p1.nc_collective,
            p1.algorithm,
            p1.num_nodes,
            p1.total_gpus,
            p1.ms_channels,
            p1.ms_chunks,
            p1.gpu_as_node,
        ) == xml_name_spec(
            p2.nc_collective,
            p2.algorithm,
            p2.num_nodes,
            p2.total_gpus,
            p2.ms_channels,
            p2.ms_chunks,
            p2.gpu_as_node,
        ),
{
}

/// Get the name of the NCCL-tests executable that measures the given
/// collective; an unknown collective name is a fatal configuration error.
pub fn collective_to_test_exe(collective: &str) -> (r: Result<String, HarnessError>)
    ensures
        r is Ok <==> collective_exe_spec(collective@) is Some,
        r matches Ok(exe) ==> exe@ == collective_exe_spec(collective@).unwrap(),
        r matches Err(e) ==> e matches HarnessError::UnknownCollective(c) && c@ == collective@,
{
    if str_eq(collective, "all-reduce") {
        Ok(String::from_str("all_reduce_perf"))
    } else if str_eq(collective, "all-gather") {
        Ok(String::from_str("all_gather_perf"))
    } else if str_eq(collective, "all-to-all") {
        Ok(String::from_str("alltoall_perf"))
    } else if str_eq(collective, "broadcast") {
        Ok(String::from_str("broadcast_perf"))
    } else if str_eq(collective, "gather") {
        Ok(String::from_str("gather_perf"))
    } else if str_eq(collective, "hypercube") {
        Ok(String::from_str("hypercube_perf"))
    } else if str_eq(collective, "reduce") {
        Ok(String::from_str("reduce_perf"))
    } else if str_eq(collective, "reduce-scatter") {
        Ok(String::from_str("reduce_scatter_perf"))
    } else if str_eq(collective, "scatter") {
        Ok(String::from_str("scatter_perf"))
    } else if str_eq(collective, "sendrecv") {
        Ok(String::from_str("sendrecv_perf"))
    } else {
        Err(HarnessError::UnknownCollective(String::from_str(collective)))
    }
}

/// The collective's filename token, or the fatal error for an unknown name.
fn xml_collective_token(collective: &str) -> (r: Result<&'static str, HarnessError>)
    ensures
        r is Ok <==> xml_collective_spec(collective@) is Some,
        r matches Ok(t) ==> t@ == xml_collective_spec(collective@).unwrap(),
        r matches Err(e) ==> e matches HarnessError::UnknownCollective(c) && c@ == collective@,
{
    if str_eq(collective, "all-reduce") {
        Ok("allreduce")
    } else if str_eq(collective, "all-gather") {
        Ok("allgather")
    } else if str_eq(collective, "all-to-all") {
        Ok("alltoall")
    } else if str_eq(collective, "broadcast") {
        Ok("broadcast")
    } else if str_eq(collective, "gather") {
        Ok("gather")
    } else if str_eq(collective, "hypercube") {
        Ok("hypercube")
    } else if str_eq(collective, "reduce") {
        Ok("reduce")
    } else if str_eq(collective, "reduce-scatter") {
        Ok("reducescatter")
    } else if str_eq(collective, "scatter") {
        Ok("scatter")
    } else if str_eq(collective, "sendrecv") {
        Ok("sendrecv")
    } else {
        Err(HarnessError::UnknownCollective(String::from_str(collective)))
    }
}

/// Whether the communication algorithm identifier is one the harness knows.
pub fn is_algorithm_known(algorithm: &str) -> (r: bool)
    ensures
        r == is_known_algorithm(algorithm@),
{
    str_eq(algorithm, "binary-tree") || str_eq(algorithm, "binomial-tree") || str_eq(
        algorithm,
        "recursive-doubling",
    ) || str_eq(algorithm, "recursive-halving-doubling") || str_eq(algorithm, "ring") || str_eq(
        algorithm,
        "trinomial-tree",
    )
}

/// Give the (probable) name of the companion XML file for a given set of
/// experiment parameters. An unknown collective or algorithm identifier is a
/// fatal configuration error; the collective is checked first.
pub fn params_to_xml(
    collective: &str,
    comm_algorithm: &str,
    num_nodes: u64,
    num_gpus: u64,
    msccl_channels: u64,
    msccl_chunks: u64,
    gpu_as_node: bool,
) -> (r: Result<String, HarnessError>)
    ensures
        r is Ok <==> (xml_collective_spec(collective@) is Some && is_known_algorithm(
            comm_algorithm@,
        )),
        r matches Ok(name) ==> name@ == xml_name_spec(
            collective@,
            comm_algorithm@,
            num_nodes,
            num_gpus,
            msccl_channels,
            msccl_chunks,
            gpu_as_node,
        ),
        r matches Err(HarnessError::UnknownCollective(c)) ==> c@ == collective@
            && xml_collective_spec(collective@) is None,
        r matches Err(HarnessError::UnknownAlgorithm(a)) ==> a@ == comm_algorithm@
            && xml_collective_spec(collective@) is Some && !is_known_algorithm(comm_algorithm@),
        r matches Err(e) ==> !(e matches HarnessError::MissingArtifact(_)),
{
    let token = match xml_collective_token(collective) {
        Ok(t) => t,
        Err(e) => {
            return Err(e);
        }
    };
    if !is_algorithm_known(comm_algorithm) {
        return Err(HarnessError::UnknownAlgorithm(String::from_str(comm_algorithm)));
    }
    let mut s = String::from_str(token);
    s.append("_");
    s.append(comm_algorithm);
    s.append("_node");
    s.append(u64_to_string(num_nodes).as_str());
    s.append("_gpu");
    s.append(u64_to_string(num_gpus).as_str());
    s.append("_mcl");
    s.append(u64_to_string(msccl_channels).as_str());
    s.append("_mck");
    s.append(u64_to_string(msccl_chunks).as_str());
    s.append("_gan");
    s.append(if gpu_as_node {
        "1"
    } else {
        "0"
    });
    s.append(".xml");
    proof {
        assert(s@ =~= xml_name_spec(
            collective@,
            comm_algorithm@,
            num_nodes,
            num_gpus,
            msccl_channels,
            msccl_chunks,
            gpu_as_node,
        ));
    }
    Ok(s)
}

/// Get the name of the output file for a set of given MSCCL experiment
/// parameters, a repetition index, and an extension naming the artifact kind.
pub fn exp_params_to_output_filename(
    params: &MscclExperimentParams,
    iteration: u64,
    extension: &str,
) -> (r: String)
    ensures
        r@ == output_name_spec(params@, iteration, extension@),
{
    let mut s = String::new();
    s.append(params.nc_collective.as_str());
    s.append("_");
    s.append(params.algorithm.as_str());
    s.append("_node");
    s.append(u64_to_string(params.num_nodes).as_str());
    s.append("_gpu");
    s.append(u64_to_string(params.total_gpus).as_str());
    s.append("_mcl");
    s.append(u64_to_string(params.ms_channels).as_str());
    s.append("_mck");
    s.append(u64_to_string(params.ms_chunks).as_str());
    s.append("_buf");
    s.append(u64_to_string(params.buffer_size).as_str());
    s.append("_gan");
    s.append(if params.gpu_as_node {
        "1"
    } else {
        "0"
    });
    s.append("_i");
    s.append(u64_to_string(iteration).as_str());
    s.append(".");
    s.append(extension);
    proof {
        assert(s@ =~= output_name_spec(params@, iteration, extension@));
    }
    s
}

} // verus!
