//! The core data types: one fully-resolved experiment descriptor, the
//! condensed permutation summary, and the error taxonomy of the harness.

use vstd::prelude::*;

verus! {

/// A set of parameters to run one MSCCL experiment with: one fully-resolved
/// point of the sweep space, immutable once created. Paths are carried as
/// plain strings; the process-running boundary turns them into real paths.
#[derive(Clone, Debug)]
pub struct MscclExperimentParams {
    // Environment params
    pub cuda_path: String,
    pub efa_path: Option<String>,
    pub aws_ofi_nccl_path: Option<String>,
    pub openmpi_path: String,
    pub msccl_path: String,
    // Exe params
    pub executable: String,
    // MSCCL params
    pub algorithm: String,
    pub ms_xml_file: String,
    pub ms_channels: u64,
    pub ms_chunks: u64,
    pub gpu_as_node: bool,
    pub num_nodes: u64,
    pub total_gpus: u64,
    pub buffer_size: u64,
    // MPI params
    pub mpi_hostfile_path: String,
    pub mpi_proc_per_node: u64,
    // NCCL tests params
    pub nc_collective: String,
    pub nc_op: String,
    pub nc_dtype: String,
    pub nc_num_threads: u64,
    pub nc_num_gpus: u64,
    pub nc_min_bytes: String,
    pub nc_max_bytes: String,
    pub nc_step_factor: String,
    pub nc_num_iters: u64,
    pub nc_num_warmup_iters: u64,
    // NCCL env params
    pub nccl_debug_level: String,
    pub nccl_algo: String,
}

/// The mathematical image of an experiment descriptor: every string field as
/// a character sequence.
#[verifier::ext_equal]
pub ghost struct ExperimentParamsModel {
    pub cuda_path: Seq<char>,
    pub efa_path: Option<Seq<char>>,
    pub aws_ofi_nccl_path: Option<Seq<char>>,
    pub openmpi_path: Seq<char>,
    pub msccl_path: Seq<char>,
    pub executable: Seq<char>,
    pub algorithm: Seq<char>,
    pub ms_xml_file: Seq<char>,
    pub ms_channels: u64,
    pub ms_chunks: u64,
    pub gpu_as_node: bool,
    pub num_nodes: u64,
    pub total_gpus: u64,
    pub buffer_size: u64,
    pub mpi_hostfile_path: Seq<char>,
    pub mpi_proc_per_node: u64,
    pub nc_collective: Seq<char>,
    pub nc_op: Seq<char>,
    pub nc_dtype: Seq<char>,
    pub nc_num_threads: u64,
    pub nc_num_gpus: u64,
    pub nc_min_bytes: Seq<char>,
    pub nc_max_bytes: Seq<char>,
    pub nc_step_factor: Seq<char>,
    pub nc_num_iters: u64,
    pub nc_num_warmup_iters: u64,
    pub nccl_debug_level: Seq<char>,
    pub nccl_algo: Seq<char>,
}

pub open spec fn view_opt_string(o: Option<String>) -> Option<Seq<char>> {
    match o {
        Some(s) => Some(s@),
        None => None,
    }
}

impl View for MscclExperimentParams {
    type V = ExperimentParamsModel;

    open spec fn view(&self) -> ExperimentParamsModel {
        ExperimentParamsModel {
            cuda_path: self.cuda_path@,
            efa_path: view_opt_string(self.efa_path),
            aws_ofi_nccl_path: view_opt_string(self.aws_ofi_nccl_path),
            openmpi_path: self.openmpi_path@,
            msccl_path: self.msccl_path@,
            executable: self.executable@,
            algorithm: self.algorithm@,
            ms_xml_file: self.ms_xml_file@,
            ms_channels: self.ms_channels,
            ms_chunks: self.ms_chunks,
            gpu_as_node: self.gpu_as_node,
            num_nodes: self.num_nodes,
            total_gpus: self.total_gpus,
            buffer_size: self.buffer_size,
            mpi_hostfile_path: self.mpi_hostfile_path@,
            mpi_proc_per_node: self.mpi_proc_per_node,
            nc_collective: self.nc_collective@,
            nc_op: self.nc_op@,
            nc_dtype: self.nc_dtype@,
            nc_num_threads: self.nc_num_threads,
            nc_num_gpus: self.nc_num_gpus,
            nc_min_bytes: self.nc_min_bytes@,
            nc_max_bytes: self.nc_max_bytes@,
            nc_step_factor: self.nc_step_factor@,
            nc_num_iters: self.nc_num_iters,
            nc_num_warmup_iters: self.nc_num_warmup_iters,
            nccl_debug_level: self.nccl_debug_level@,
            nccl_algo: self.nccl_algo@,
        }
    }
}

/// A condensed view of one generated sweep point, as the progress display
/// shows it.
#[derive(Clone, Debug)]
pub struct Permutation {
    pub collective_exe: String,
    pub reduction_op: String,
    pub data_type: String,
    pub comm_algorithm: String,
    pub msccl_channel: Option<String>,
    pub msccl_chunk: Option<String>,
    pub buffer_size: Option<String>,
}

/// The fatal configuration errors of the harness: an identifier outside the
/// known vocabulary, or (under the strict policy) a companion artifact whose
/// computed name is absent.
#[derive(Clone, Debug)]
pub enum HarnessError {
    UnknownCollective(String),
    UnknownAlgorithm(String),
    MissingArtifact(String),
}

impl HarnessError {
    /// A short human-readable description of the error.
    pub fn describe(&self) -> (s: String)
        ensures
            match self {
                HarnessError::UnknownCollective(c) => s@ == "unknown collective: "@ + c@,
                HarnessError::UnknownAlgorithm(a) => s@ == "unknown communication algorithm: "@
                    + a@,
                HarnessError::MissingArtifact(x) => s@ == "companion artifact not found: "@ + x@,
            },
    {
        let mut s = String::new();
        match self {
            HarnessError::UnknownCollective(c) => {
                s.append("unknown collective: ");
                s.append(c.as_str());
            }
            HarnessError::UnknownAlgorithm(a) => {
                s.append("unknown communication algorithm: ");
                s.append(a.as_str());
            }
            HarnessError::MissingArtifact(x) => {
                s.append("companion artifact not found: ");
                s.append(x.as_str());
            }
        }
        proof {
            assert(Seq::<char>::empty() + "unknown collective: "@ =~= "unknown collective: "@);
            assert(Seq::<char>::empty() + "unknown communication algorithm: "@
                =~= "unknown communication algorithm: "@);
            assert(Seq::<char>::empty() + "companion artifact not found: "@
                =~= "companion artifact not found: "@);
        }
        s
    }
}

} // verus!
