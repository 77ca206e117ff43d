//! The run command: the library-path environment string and the full MPI
//! launcher argument list for one descriptor, built exactly as the external
//! process boundary hands them to the launcher. Under a dry run the launcher
//! is replaced by an echo of the command.

use vstd::prelude::*;
use vstd::string::*;

use crate::text::u64_digits;
use crate::text::u64_to_string;
use crate::text::views_of;
use crate::types::ExperimentParamsModel;
use crate::types::MscclExperimentParams;

verus! {

/// The dynamic-linker search path for one run: the lib64 and lib
/// subdirectories of the CUDA, MPI and MSCCL installations, then the lib
/// subdirectories of the optional EFA and OFI plugin installations.
pub open spec fn ld_library_path_spec(p: ExperimentParamsModel) -> Seq<char> {
    p.cuda_path + "/lib64:"@ + p.cuda_path + "/lib:"@ + p.openmpi_path + "/lib64:"@
        + p.openmpi_path + "/lib:"@ + p.msccl_path + "/lib64:"@ + p.msccl_path + "/lib"@ + (
    match p.efa_path {
        Some(e) => ":"@ + e + "/lib"@,
        None => Seq::empty(),
    }) + (match p.aws_ofi_nccl_path {
        Some(a) => ":"@ + a + "/lib"@,
        None => Seq::empty(),
    })
}

/// Builds the dynamic-linker search path for one run.
pub fn build_ld_library_path(p: &MscclExperimentParams) -> (s: String)
    ensures
        s@ == ld_library_path_spec(p@),
{
    let mut s = String::new();
    s.append(p.cuda_path.as_str());
    s.append("/lib64:");
    s.append(p.cuda_path.as_str());
    s.append("/lib:");
    s.append(p.openmpi_path.as_str());
    s.append("/lib64:");
    s.append(p.openmpi_path.as_str());
    s.append("/lib:");
    s.append(p.msccl_path.as_str());
    s.append("/lib64:");
    s.append(p.msccl_path.as_str());
    s.append("/lib");
    match &p.efa_path {
        Some(e) => {
            s.append(":");
            s.append(e.as_str());
            s.append("/lib");
        }
        None => {}
    }
    match &p.aws_ofi_nccl_path {
        Some(a) => {
            s.append(":");
            s.append(a.as_str());
            s.append("/lib");
        }
        None => {}
    }
    proof {
        assert(s@ =~= ld_library_path_spec(p@));
    }
    s
}

/// The launcher's argument list for one descriptor, in the exact order the
/// external process boundary passes it.
pub open spec fn mpirun_args_spec(p: ExperimentParamsModel) -> Seq<Seq<char>> {
    seq![
        "--hostfile"@,
        p.mpi_hostfile_path,
        "--map-by"@,
        "ppr:"@ + u64_digits(p.mpi_proc_per_node as nat) + ":node"@,
        "-x"@,
        "LD_LIBRARY_PATH="@ + ld_library_path_spec(p),
        "-x"@,
        "MSCCL_XML_FILES="@ + p.ms_xml_file,
        "-x"@,
        "GENMSCCLXML=1"@,
        "-x"@,
        "NCCL_DEBUG="@ + p.nccl_debug_level,
        "-x"@,
        "NCCL_ALGO="@ + p.nccl_algo,
        "-x"@,
        "FI_EFA_USE_DEVICE_RDMA=1"@,
        "-x"@,
        "FI_EFA_FORK_SAFE=1"@,
        "--mca"@,
        "btl"@,
        "tcp,self"@,
        "--mca"@,
        "btl_tcp_if_exclude"@,
        "lo,docker0"@,
        "--bind-to"@,
        "none"@,
        p.executable,
        "--nthreads"@,
        u64_digits(p.nc_num_threads as nat),
        "--ngpus"@,
        u64_digits(p.nc_num_gpus as nat),
        "--minbytes"@,
        p.nc_min_bytes,
        "--maxbytes"@,
        p.nc_max_bytes,
        "--stepfactor"@,
        p.nc_step_factor,
        "--op"@,
        p.nc_op,
        "--datatype"@,
        p.nc_dtype,
        "--iters"@,
        u64_digits(p.nc_num_iters as nat),
        "--warmup_iters"@,
        u64_digits(p.nc_num_warmup_iters as nat),
    ]
}

/// Builds the program name and argument list for one run. A dry run echoes
/// the command instead of launching it.
pub fn build_mpirun_command(p: &MscclExperimentParams, dry_run: bool) -> (r: (String, Vec<String>))
    ensures
        r.0@ == (if dry_run {
            "echo"@
        } else {
            "mpirun"@
        }),
        views_of(r.1@) == mpirun_args_spec(p@),
{
    let program = if dry_run {
        String::from_str("echo")
    } else {
        String::from_str("mpirun")
    };
    let mut args: Vec<String> = Vec::new();
    args.push(String::from_str("--hostfile"));
    args.push(p.mpi_hostfile_path.clone());
    args.push(String::from_str("--map-by"));
    let mut ppr = String::from_str("ppr:");
    ppr.append(u64_to_string(p.mpi_proc_per_node).as_str());
    ppr.append(":node");
    args.push(ppr);
    args.push(String::from_str("-x"));
    let mut ld = String::from_str("LD_LIBRARY_PATH=");
    ld.append(build_ld_library_path(p).as_str());
    args.push(ld);
    args.push(String::from_str("-x"));
    let mut xml = String::from_str("MSCCL_XML_FILES=");
    xml.append(p.ms_xml_file.as_str());
    args.push(xml);
    args.push(String::from_str("-x"));
    args.push(String::from_str("GENMSCCLXML=1"));
    args.push(String::from_str("-x"));
    let mut dbg = String::from_str("NCCL_DEBUG=");
    dbg.append(p.nccl_debug_level.as_str());
    args.push(dbg);
    args.push(String::from_str("-x"));
    let mut nalgo = String::from_str("NCCL_ALGO=");
    nalgo.append(p.nccl_algo.as_str());
    args.push(nalgo);
    args.push(String::from_str("-x"));
    args.push(String::from_str("FI_EFA_USE_DEVICE_RDMA=1"));
    args.push(String::from_str("-x"));
    args.push(String::from_str("FI_EFA_FORK_SAFE=1"));
    args.push(String::from_str("--mca"));
    args.push(String::from_str("btl"));
    args.push(String::from_str("tcp,self"));
    args.push(String::from_str("--mca"));
    args.push(String::from_str("btl_tcp_if_exclude"));
    args.push(String::from_str("lo,docker0"));
    args.push(String::from_str("--bind-to"));
    args.push(String::from_str("none"));
    args.push(p.executable.clone());
    args.push(String::from_str("--nthreads"));
    args.push(u64_to_string(p.nc_num_threads));
    args.push(String::from_str("--ngpus"));
    args.push(u64_to_string(p.nc_num_gpus));
    args.push(String::from_str("--minbytes"));
    args.push(p.nc_min_bytes.clone());
    args.push(String::from_str("--maxbytes"));
    args.push(p.nc_max_bytes.clone());
    args.push(String::from_str("--stepfactor"));
    args.push(p.nc_step_factor.clone());
    args.push(String::from_str("--op"));
    args.push(p.nc_op.clone());
    args.push(String::from_str("--datatype"));
    args.push(p.nc_dtype.clone());
    args.push(String::from_str("--iters"));
    args.push(u64_to_string(p.nc_num_iters));
    args.push(String::from_str("--warmup_iters"));
    args.push(u64_to_string(p.nc_num_warmup_iters));
    proof {
        assert(ppr@ =~= "ppr:"@ + u64_digits(p@.mpi_proc_per_node as nat) + ":node"@);
        assert(views_of(args@) =~= mpirun_args_spec(p@));
    }
    (program, args)
}

} // verus!
