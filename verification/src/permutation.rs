//! The permutation generator: expands the sweep dimensions, in a fixed
//! nested order, into the ordered sequence of experiment descriptors. Each
//! algorithm carries an explicit table of its allowed (channel, chunk)
//! pairs — the single source of truth for validity — and every candidate is
//! admitted only if its companion artifact's computed name is available;
//! under the strict policy a missing artifact aborts generation, under the
//! relaxed policy the tuple is omitted.

use vstd::prelude::*;
use vstd::string::*;

use crate::naming::collective_exe_spec;
use crate::naming::collective_to_test_exe;
use crate::naming::is_known_algorithm;
use crate::naming::is_algorithm_known;
use crate::naming::params_to_xml;
use crate::naming::xml_collective_spec;
use crate::naming::xml_name_spec;
use crate::text::str_eq;
use crate::text::u64_to_string;
use crate::text::views_of;
use crate::types::ExperimentParamsModel;
use crate::types::HarnessError;
use crate::types::MscclExperimentParams;
use crate::types::Permutation;
use crate::types::view_opt_string;

verus! {

// ---------------------------------------------------------------------------
// Sweep configuration
// ---------------------------------------------------------------------------
/// One allowed (channel count, chunk count) combination.
#[derive(Clone, Copy, Debug, PartialEq, Eq, Structural)]
pub struct ChannelChunk {
    pub channels: u64,
    pub chunks: u64,
}

/// One communication algorithm with its table of allowed (channel, chunk)
/// pairs. A pair outside this table is never generated for the algorithm.
#[derive(Clone, Debug)]
pub struct AlgorithmRule {
    pub name: String,
    pub allowed: Vec<ChannelChunk>,
}

/// The mathematical image of an algorithm rule.
pub ghost struct AlgorithmRuleModel {
    pub name: Seq<char>,
    pub allowed: Seq<ChannelChunk>,
}

impl View for AlgorithmRule {
    type V = AlgorithmRuleModel;

    open spec fn view(&self) -> AlgorithmRuleModel {
        AlgorithmRuleModel { name: self.name@, allowed: self.allowed@ }
    }
}

pub open spec fn rule_views(rs: Seq<AlgorithmRule>) -> Seq<AlgorithmRuleModel> {
    rs.map_values(|r: AlgorithmRule| r@)
}

/// The sweep dimensions: the fixed lists each nested loop of the generator
/// draws from.
#[derive(Clone, Debug)]
pub struct SweepDimensions {
    pub collectives: Vec<String>,
    pub buffer_sizes: Vec<u64>,
    pub data_types: Vec<String>,
    pub reduction_ops: Vec<String>,
    pub algorithms: Vec<AlgorithmRule>,
    pub gpus_as_nodes: Vec<bool>,
}

/// The mathematical image of the sweep dimensions.
pub ghost struct SweepModel {
    pub collectives: Seq<Seq<char>>,
    pub buffer_sizes: Seq<u64>,
    pub data_types: Seq<Seq<char>>,
    pub reduction_ops: Seq<Seq<char>>,
    pub algorithms: Seq<AlgorithmRuleModel>,
    pub gpus_as_nodes: Seq<bool>,
}

impl View for SweepDimensions {
    type V = SweepModel;

    open spec fn view(&self) -> SweepModel {
        SweepModel {
            collectives: views_of(self.collectives@),
            buffer_sizes: self.buffer_sizes@,
            data_types: views_of(self.data_types@),
            reduction_ops: views_of(self.reduction_ops@),
            algorithms: rule_views(self.algorithms@),
            gpus_as_nodes: self.gpus_as_nodes@,
        }
    }
}

/// The immutable harness configuration, constructed once at startup: the
/// environment paths and the per-run constants every descriptor shares.
#[derive(Clone, Debug)]
pub struct HarnessConfig {
    pub cuda_path: String,
    pub efa_path: Option<String>,
    pub aws_ofi_nccl_path: Option<String>,
    pub openmpi_path: String,
    pub msccl_path: String,
    pub nccl_test_bins: String,
    pub msccl_xmls_dir: String,
    pub mpi_hostfile_path: String,
    pub num_nodes: u64,
    pub gpus_per_node: u64,
    pub nc_num_threads: u64,
    pub nc_num_gpus: u64,
    pub nc_min_bytes: String,
    pub nc_max_bytes: String,
    pub nc_step_factor: String,
    pub nc_num_iters: u64,
    pub nc_num_warmup_iters: u64,
    pub nccl_debug_level: String,
    pub nccl_algo: String,
}

/// The mathematical image of the harness configuration.
pub ghost struct HarnessConfigModel {
    pub cuda_path: Seq<char>,
    pub efa_path: Option<Seq<char>>,
    pub aws_ofi_nccl_path: Option<Seq<char>>,
    pub openmpi_path: Seq<char>,
    pub msccl_path: Seq<char>,
    pub nccl_test_bins: Seq<char>,
    pub msccl_xmls_dir: Seq<char>,
    pub mpi_hostfile_path: Seq<char>,
    pub num_nodes: u64,
    pub gpus_per_node: u64,
    pub nc_num_threads: u64,
    pub nc_num_gpus: u64,
    pub nc_min_bytes: Seq<char>,
    pub nc_max_bytes: Seq<char>,
    pub nc_step_factor: Seq<char>,
    pub nc_num_iters: u64,
    pub nc_num_warmup_iters: u64,
    pub nccl_debug_level: Seq<char>,
    pub nccl_algo: Seq<char>,
}

impl View for HarnessConfig {
    type V = HarnessConfigModel;

    open spec fn view(&self) -> HarnessConfigModel {
        HarnessConfigModel {
            cuda_path: self.cuda_path@,
            efa_path: view_opt_string(self.efa_path),
            aws_ofi_nccl_path: view_opt_string(self.aws_ofi_nccl_path),
            openmpi_path: self.openmpi_path@,
            msccl_path: self.msccl_path@,
            nccl_test_bins: self.nccl_test_bins@,
            msccl_xmls_dir: self.msccl_xmls_dir@,
            mpi_hostfile_path: self.mpi_hostfile_path@,
            num_nodes: self.num_nodes,
            gpus_per_node: self.gpus_per_node,
            nc_num_threads: self.nc_num_threads,
            nc_num_gpus: self.nc_num_gpus,
            nc_min_bytes: self.nc_min_bytes@,
            nc_max_bytes: self.nc_max_bytes@,
            nc_step_factor: self.nc_step_factor@,
            nc_num_iters: self.nc_num_iters,
            nc_num_warmup_iters: self.nc_num_warmup_iters,
            nccl_debug_level: self.nccl_debug_level@,
            nccl_algo: self.nccl_algo@,
        }
    }
}

/// The one machine limit the configuration must respect: the device total is
/// the product of the node count and the per-node device count.
pub open spec fn cfg_wf(c: HarnessConfigModel) -> bool {
    c.num_nodes * c.gpus_per_node <= u64::MAX
}

/// The total device count of the configuration.
pub open spec fn total_gpus_spec(c: HarnessConfigModel) -> u64
    recommends
        cfg_wf(c),
{
    (c.num_nodes * c.gpus_per_node) as u64
}

/// The benchmark executable's path for a collective: the executables
/// directory joined with the collective's executable name.
pub open spec fn exec_path_spec(cfg: HarnessConfigModel, coll: Seq<char>) -> Seq<char>
    recommends
        collective_exe_spec(coll) is Some,
{
    cfg.nccl_test_bins + "/"@ + collective_exe_spec(coll).unwrap()
}

/// The companion artifact's path for one candidate: the artifact directory
/// joined with the computed filename.
pub open spec fn xml_path_spec(
    cfg: HarnessConfigModel,
    coll: Seq<char>,
    algo: Seq<char>,
    pair: ChannelChunk,
    gan: bool,
) -> Seq<char> {
    cfg.msccl_xmls_dir + "/"@ + xml_name_spec(
        coll,
        algo,
        cfg.num_nodes,
        total_gpus_spec(cfg),
        pair.channels,
        pair.chunks,
        gan,
    )
}

/// The descriptor generated for one candidate tuple.
pub open spec fn desc_spec(
    cfg: HarnessConfigModel,
    coll: Seq<char>,
    buf: u64,
    dt: Seq<char>,
    op: Seq<char>,
    algo: Seq<char>,
    pair: ChannelChunk,
    gan: bool,
) -> ExperimentParamsModel {
    ExperimentParamsModel {
        cuda_path: cfg.cuda_path,
        efa_path: cfg.efa_path,
        aws_ofi_nccl_path: cfg.aws_ofi_nccl_path,
        openmpi_path: cfg.openmpi_path,
        msccl_path: cfg.msccl_path,
        executable: exec_path_spec(cfg, coll),
        algorithm: algo,
        ms_xml_file: xml_path_spec(cfg, coll, algo, pair, gan),
        ms_channels: pair.channels,
        ms_chunks: pair.chunks,
        gpu_as_node: gan,
        num_nodes: cfg.num_nodes,
        total_gpus: total_gpus_spec(cfg),
        buffer_size: buf,
        mpi_hostfile_path: cfg.mpi_hostfile_path,
        mpi_proc_per_node: cfg.gpus_per_node,
        nc_collective: coll,
        nc_op: op,
        nc_dtype: dt,
        nc_num_threads: cfg.nc_num_threads,
        nc_num_gpus: cfg.nc_num_gpus,
        nc_min_bytes: cfg.nc_min_bytes,
        nc_max_bytes: cfg.nc_max_bytes,
        nc_step_factor: cfg.nc_step_factor,
        nc_num_iters: cfg.nc_num_iters,
        nc_num_warmup_iters: cfg.nc_num_warmup_iters,
        nccl_debug_level: cfg.nccl_debug_level,
        nccl_algo: cfg.nccl_algo,
    }
}

// ---------------------------------------------------------------------------
// The generated sequence, level by level
// ---------------------------------------------------------------------------
/// Concatenation over the abort-carrying results: `None` means generation
/// aborted (a missing artifact under the strict policy).
pub open spec fn combine(
    head: Option<Seq<ExperimentParamsModel>>,
    tail: Option<Seq<ExperimentParamsModel>>,
) -> Option<Seq<ExperimentParamsModel>> {
    match (head, tail) {
        (Some(a), Some(b)) => Some(a + b),
        _ => None,
    }
}

/// The descriptors generated for one (collective, buffer, dtype, op,
/// algorithm, pair) choice, over the device-as-node flags from index `gi` on.
pub open spec fn gen_gans(
    cfg: HarnessConfigModel,
    avail: Seq<Seq<char>>,
    strict: bool,
    coll: Seq<char>,
    buf: u64,
    dt: Seq<char>,
    op: Seq<char>,
    algo: Seq<char>,
    pair: ChannelChunk,
    gans: Seq<bool>,
    gi: int,
) -> Option<Seq<ExperimentParamsModel>>
    decreases gans.len() - gi,
    when 0 <= gi <= gans.len()
{
    if gi >= gans.len() {
        Some(Seq::empty())
    } else {
        let gan = gans[gi];
        let name = xml_name_spec(
            coll,
            algo,
            cfg.num_nodes,
            total_gpus_spec(cfg),
            pair.channels,
            pair.chunks,
            gan,
        );
        let rest = gen_gans(cfg, avail, strict, coll, buf, dt, op, algo, pair, gans, gi + 1);
        if avail.contains(name) {
            combine(Some(seq![desc_spec(cfg, coll, buf, dt, op, algo, pair, gan)]), rest)
        } else if strict {
            None
        } else {
            rest
        }
    }
}

/// The descriptors for one algorithm, over its allowed pairs from index `pi`
/// on.
pub open spec fn gen_pairs(
    cfg: HarnessConfigModel,
    avail: Seq<Seq<char>>,
    strict: bool,
    coll: Seq<char>,
    buf: u64,
    dt: Seq<char>,
    op: Seq<char>,
    algo: Seq<char>,
    allowed: Seq<ChannelChunk>,
    gans: Seq<bool>,
    pi: int,
) -> Option<Seq<ExperimentParamsModel>>
    decreases allowed.len() - pi,
    when 0 <= pi <= allowed.len()
{
    if pi >= allowed.len() {
        Some(Seq::empty())
    } else {
        combine(
            gen_gans(cfg, avail, strict, coll, buf, dt, op, algo, allowed[pi], gans, 0),
            gen_pairs(cfg, avail, strict, coll, buf, dt, op, algo, allowed, gans, pi + 1),
        )
    }
}

/// The descriptors over the algorithm rules from index `ai` on.
pub open spec fn gen_algos(
    cfg: HarnessConfigModel,
    avail: Seq<Seq<char>>,
    strict: bool,
    coll: Seq<char>,
    buf: u64,
    dt: Seq<char>,
    op: Seq<char>,
    algorithms: Seq<AlgorithmRuleModel>,
    gans: Seq<bool>,
    ai: int,
) -> Option<Seq<ExperimentParamsModel>>
    decreases algorithms.len() - ai,
    when 0 <= ai <= algorithms.len()
{
    if ai >= algorithms.len() {
        Some(Seq::empty())
    } else {
        combine(
            gen_pairs(
                cfg,
                avail,
                strict,
                coll,
                buf,
                dt,
                op,
                algorithms[ai].name,
                algorithms[ai].allowed,
                gans,
                0,
            ),
            gen_algos(cfg, avail, strict, coll, buf, dt, op, algorithms, gans, ai + 1),
        )
    }
}

/// The descriptors over the reduction ops from index `oi` on.
pub open spec fn gen_ops(
    cfg: HarnessConfigModel,
    avail: Seq<Seq<char>>,
    strict: bool,
    coll: Seq<char>,
    buf: u64,
    dt: Seq<char>,
    ops: Seq<Seq<char>>,
    algorithms: Seq<AlgorithmRuleModel>,
    gans: Seq<bool>,
    oi: int,
) -> Option<Seq<ExperimentParamsModel>>
    decreases ops.len() - oi,
    when 0 <= oi <= ops.len()
{
    if oi >= ops.len() {
        Some(Seq::empty())
    } else {
        combine(
            gen_algos(cfg, avail, strict, coll, buf, dt, ops[oi], algorithms, gans, 0),
            gen_ops(cfg, avail, strict, coll, buf, dt, ops, algorithms, gans, oi + 1),
        )
    }
}

/// The descriptors over the data types from index `di` on.
pub open spec fn gen_dtypes(
    cfg: HarnessConfigModel,
    avail: Seq<Seq<char>>,
    strict: bool,
    coll: Seq<char>,
    buf: u64,
    dts: Seq<Seq<char>>,
    ops: Seq<Seq<char>>,
    algorithms: Seq<AlgorithmRuleModel>,
    gans: Seq<bool>,
    di: int,
) -> Option<Seq<ExperimentParamsModel>>
    decreases dts.len() - di,
    when 0 <= di <= dts.len()
{
    if di >= dts.len() {
        Some(Seq::empty())
    } else {
        combine(
            gen_ops(cfg, avail, strict, coll, buf, dts[di], ops, algorithms, gans, 0),
            gen_dtypes(cfg, avail, strict, coll, buf, dts, ops, algorithms, gans, di + 1),
        )
    }
}

/// The descriptors over the buffer-size factors from index `bi` on.
pub open spec fn gen_bufs(
    cfg: HarnessConfigModel,
    avail: Seq<Seq<char>>,
    strict: bool,
    coll: Seq<char>,
    bufs: Seq<u64>,
    dts: Seq<Seq<char>>,
    ops: Seq<Seq<char>>,
    algorithms: Seq<AlgorithmRuleModel>,
    gans: Seq<bool>,
    bi: int,
) -> Option<Seq<ExperimentParamsModel>>
    decreases bufs.len() - bi,
    when 0 <= bi <= bufs.len()
{
    if bi >= bufs.len() {
        Some(Seq::empty())
    } else {
        combine(
            gen_dtypes(cfg, avail, strict, coll, bufs[bi], dts, ops, algorithms, gans, 0),
            gen_bufs(cfg, avail, strict, coll, bufs, dts, ops, algorithms, gans, bi + 1),
        )
    }
}

/// The descriptors over the collectives from index `ci` on.
pub open spec fn gen_colls(
    cfg: HarnessConfigModel,
    avail: Seq<Seq<char>>,
    strict: bool,
    sweep: SweepModel,
    ci: int,
) -> Option<Seq<ExperimentParamsModel>>
    decreases sweep.collectives.len() - ci,
    when 0 <= ci <= sweep.collectives.len()
{
    if ci >= sweep.collectives.len() {
        Some(Seq::empty())
    } else {
        combine(
            gen_bufs(
                cfg,
                avail,
                strict,
                sweep.collectives[ci],
                sweep.buffer_sizes,
                sweep.data_types,
                sweep.reduction_ops,
                sweep.algorithms,
                sweep.gpus_as_nodes,
                0,
            ),
            gen_colls(cfg, avail, strict, sweep, ci + 1),
        )
    }
}

/// The full generated sequence: collective, then buffer size, then data
/// type, then reduction op, then algorithm, then its (channel, chunk) pairs,
/// then the device-as-node flag — or `None` when a companion artifact is
/// missing under the strict policy.
pub open spec fn gen_all(
    cfg: HarnessConfigModel,
    avail: Seq<Seq<char>>,
    strict: bool,
    sweep: SweepModel,
) -> Option<Seq<ExperimentParamsModel>> {
    gen_colls(cfg, avail, strict, sweep, 0)
}

/// Every collective and algorithm identifier of the sweep is in the known
/// vocabulary.
pub open spec fn sweep_names_valid(s: SweepModel) -> bool {
    (forall|i: int|
        0 <= i < s.collectives.len() ==> xml_collective_spec(#[trigger] s.collectives[i]) is Some)
        && (forall|i: int|
        0 <= i < s.algorithms.len() ==> is_known_algorithm(#[trigger] s.algorithms[i].name))
}

/// The two collective tables (executable names and artifact-name tokens)
/// know exactly the same collectives.
pub proof fn lemma_collective_tables_agree(c: Seq<char>)
    ensures
        collective_exe_spec(c) is Some <==> xml_collective_spec(c) is Some,
{
}

/// The views of a sequence of descriptors.
pub open spec fn param_views(v: Seq<MscclExperimentParams>) -> Seq<ExperimentParamsModel> {
    v.map_values(|d: MscclExperimentParams| d@)
}

// ---------------------------------------------------------------------------
// Executable generation
// ---------------------------------------------------------------------------
/// How each level's executable result relates to its spec-level sequence:
/// success returns exactly the spec sequence; failure can only be a missing
/// companion artifact under the strict policy, naming an unavailable
/// artifact, exactly when the spec aborted.
pub open spec fn gen_result_matches(
    r: Result<Vec<MscclExperimentParams>, HarnessError>,
    g: Option<Seq<ExperimentParamsModel>>,
    avail: Seq<Seq<char>>,
    strict: bool,
) -> bool {
    match r {
        Ok(v) => g == Some(param_views(v@)),
        Err(e) => g is None && strict && match e {
            HarnessError::MissingArtifact(n) => !avail.contains(n@),
            _ => false,
        },
    }
}

proof fn lemma_combine_step(
    acc: Seq<ExperimentParamsModel>,
    head: Seq<ExperimentParamsModel>,
    rest: Option<Seq<ExperimentParamsModel>>,
)
    ensures
        combine(Some(acc), combine(Some(head), rest)) == combine(Some(acc + head), rest),
{
    match rest {
        Some(b) => {
            assert(acc + (head + b) =~= (acc + head) + b);
        },
        None => {},
    }
}

proof fn lemma_param_views_concat(a: Seq<MscclExperimentParams>, b: Seq<MscclExperimentParams>)
    ensures
        param_views(a + b) =~= param_views(a) + param_views(b),
{
}

proof fn lemma_param_views_push(a: Seq<MscclExperimentParams>, d: MscclExperimentParams)
    ensures
        param_views(a.push(d)) =~= param_views(a).push(d@),
        param_views(a).push(d@) =~= param_views(a) + seq![d@],
{
}

/// Whether the list of available artifact names contains `s`.
#[verifier::loop_isolation(false)]
fn contains_name(v: &Vec<String>, s: &str) -> (r: bool)
    ensures
        r == views_of(v@).contains(s@),
{
    let mut k: usize = 0;
    while k < v.len()
        invariant
            k <= v.len(),
            forall|j: int| 0 <= j < k ==> views_of(v@)[j] != s@,
        decreases v.len() - k,
    {
        if str_eq(v[k].as_str(), s) {
            proof {
                assert(views_of(v@)[k as int] == s@);
            }
            return true;
        }
        k += 1;
    }
    proof {
        assert(!views_of(v@).contains(s@));
    }
    false
}

/// Clones an optional string, preserving its view.
fn clone_opt_string(o: &Option<String>) -> (r: Option<String>)
    ensures
        view_opt_string(r) == view_opt_string(*o),
{
    match o {
        Some(s) => Some(s.clone()),
        None => None,
    }
}

/// Generates the descriptors for one fully chosen tuple prefix, over the
/// device-as-node flags.
#[verifier::loop_isolation(false)]
fn gen_for_gans(
    cfg: &HarnessConfig,
    avail: &Vec<String>,
    strict: bool,
    collective: &str,
    executable: &String,
    buf: u64,
    dtype: &str,
    op: &str,
    algo: &str,
    pair: ChannelChunk,
    gans: &Vec<bool>,
    tg: u64,
) -> (r: Result<Vec<MscclExperimentParams>, HarnessError>)
    requires
        cfg_wf(cfg@),
        tg == total_gpus_spec(cfg@),
        xml_collective_spec(collective@) is Some,
        is_known_algorithm(algo@),
        executable@ == exec_path_spec(cfg@, collective@),
    ensures
        gen_result_matches(
            r,
            gen_gans(
                cfg@,
                views_of(avail@),
                strict,
                collective@,
                buf,
                dtype@,
                op@,
                algo@,
                pair,
                gans@,
                0,
            ),
            views_of(avail@),
            strict,
        ),
{
    let ghost g0 = gen_gans(
        cfg@,
        views_of(avail@),
        strict,
        collective@,
        buf,
        dtype@,
        op@,
        algo@,
        pair,
        gans@,
        0,
    );
    let mut out: Vec<MscclExperimentParams> = Vec::new();
    proof {
        assert(param_views(out@) =~= Seq::<ExperimentParamsModel>::empty());
        if g0 is Some {
            assert(Seq::<ExperimentParamsModel>::empty() + g0.unwrap() =~= g0.unwrap());
        }
    }
    let mut gi: usize = 0;
    while gi < gans.len()
        invariant
            gi <= gans.len(),
            g0 == combine(
                Some(param_views(out@)),
                gen_gans(
                    cfg@,
                    views_of(avail@),
                    strict,
                    collective@,
                    buf,
                    dtype@,
                    op@,
                    algo@,
                    pair,
                    gans@,
                    gi as int,
                ),
            ),
        decreases gans.len() - gi,
    {
        let ghost g_here = gen_gans(
            cfg@,
            views_of(avail@),
            strict,
            collective@,
            buf,
            dtype@,
            op@,
            algo@,
            pair,
            gans@,
            gi as int,
        );
        let ghost g_next = gen_gans(
            cfg@,
            views_of(avail@),
            strict,
            collective@,
            buf,
            dtype@,
            op@,
            algo@,
            pair,
            gans@,
            gi as int + 1,
        );
        let gan = gans[gi];
        let name = match params_to_xml(
            collective,
            algo,
            cfg.num_nodes,
            tg,
            pair.channels,
            pair.chunks,
            gan,
        ) {
            Ok(n) => n,
            Err(e) => {
                proof {
                    assert(false);
                }
                return Err(e);
            }
        };
        if contains_name(avail, name.as_str()) {
            let mut xml_path = cfg.msccl_xmls_dir.clone();
            xml_path.append("/");
            xml_path.append(name.as_str());
            let d = MscclExperimentParams {
                cuda_path: cfg.cuda_path.clone(),
                efa_path: clone_opt_string(&cfg.efa_path),
                aws_ofi_nccl_path: clone_opt_string(&cfg.aws_ofi_nccl_path),
                openmpi_path: cfg.openmpi_path.clone(),
                msccl_path: cfg.msccl_path.clone(),
                executable: executable.clone(),
                algorithm: String::from_str(algo),
                ms_xml_file: xml_path,
                ms_channels: pair.channels,
                ms_chunks: pair.chunks,
                gpu_as_node: gan,
                num_nodes: cfg.num_nodes,
                total_gpus: tg,
                buffer_size: buf,
                mpi_hostfile_path: cfg.mpi_hostfile_path.clone(),
                mpi_proc_per_node: cfg.gpus_per_node,
                nc_collective: String::from_str(collective),
                nc_op: String::from_str(op),
                nc_dtype: String::from_str(dtype),
                nc_num_threads: cfg.nc_num_threads,
                nc_num_gpus: cfg.nc_num_gpus,
                nc_min_bytes: cfg.nc_min_bytes.clone(),
                nc_max_bytes: cfg.nc_max_bytes.clone(),
                nc_step_factor: cfg.nc_step_factor.clone(),
                nc_num_iters: cfg.nc_num_iters,
                nc_num_warmup_iters: cfg.nc_num_warmup_iters,
                nccl_debug_level: cfg.nccl_debug_level.clone(),
                nccl_algo: cfg.nccl_algo.clone(),
            };
            proof {
                assert(d.ms_xml_file@ =~= xml_path_spec(cfg@, collective@, algo@, pair, gan));
                assert(d@ =~= desc_spec(cfg@, collective@, buf, dtype@, op@, algo@, pair, gan));
            }
            let ghost pre = out@;
            out.push(d);
            proof {
                lemma_param_views_push(pre, d);
                assert(g_here == combine(Some(seq![d@]), g_next));
                lemma_combine_step(param_views(pre), seq![d@], g_next);
                assert(param_views(pre) + seq![d@] =~= param_views(out@));
            }
        } else if strict {
            proof {
                assert(g_here is None);
            }
            return Err(HarnessError::MissingArtifact(name));
        } else {
            proof {
                assert(g_here == g_next);
            }
        }
        gi += 1;
    }
    proof {
        let g_end = gen_gans(
            cfg@,
            views_of(avail@),
            strict,
            collective@,
            buf,
            dtype@,
            op@,
            algo@,
            pair,
            gans@,
            gi as int,
        );
        assert(g_end == Some(Seq::<ExperimentParamsModel>::empty()));
        assert(param_views(out@) + Seq::<ExperimentParamsModel>::empty() =~= param_views(out@));
    }
    Ok(out)
}

/// Generates the descriptors for one algorithm choice, over its allowed
/// (channel, chunk) pairs.
#[verifier::loop_isolation(false)]
fn gen_for_pairs(
    cfg: &HarnessConfig,
    avail: &Vec<String>,
    strict: bool,
    collective: &str,
    executable: &String,
    buf: u64,
    dtype: &str,
    op: &str,
    algo: &str,
    allowed: &Vec<ChannelChunk>,
    gans: &Vec<bool>,
    tg: u64,
) -> (r: Result<Vec<MscclExperimentParams>, HarnessError>)
    requires
        cfg_wf(cfg@),
        tg == total_gpus_spec(cfg@),
        xml_collective_spec(collective@) is Some,
        is_known_algorithm(algo@),
        executable@ == exec_path_spec(cfg@, collective@),
    ensures
        gen_result_matches(
            r,
            gen_pairs(
                cfg@,
                views_of(avail@),
                strict,
                collective@,
                buf,
                dtype@,
                op@,
                algo@,
                allowed@,
                gans@,
                0,
            ),
            views_of(avail@),
            strict,
        ),
{
    let ghost g0 = gen_pairs(
        cfg@,
        views_of(avail@),
        strict,
        collective@,
        buf,
        dtype@,
        op@,
        algo@,
        allowed@,
        gans@,
        0,
    );
    let mut out: Vec<MscclExperimentParams> = Vec::new();
    proof {
        assert(param_views(out@) =~= Seq::<ExperimentParamsModel>::empty());
        if g0 is Some {
            assert(Seq::<ExperimentParamsModel>::empty() + g0.unwrap() =~= g0.unwrap());
        }
    }
    let mut pi: usize = 0;
    while pi < allowed.len()
        invariant
            pi <= allowed.len(),
            g0 == combine(
                Some(param_views(out@)),
                gen_pairs(
                    cfg@,
                    views_of(avail@),
                    strict,
                    collective@,
                    buf,
                    dtype@,
                    op@,
                    algo@,
                    allowed@,
                    gans@,
                    pi as int,
                ),
            ),
        decreases allowed.len() - pi,
    {
        let ghost g_here = gen_pairs(
            cfg@,
            views_of(avail@),
            strict,
            collective@,
            buf,
            dtype@,
            op@,
            algo@,
            allowed@,
            gans@,
            pi as int,
        );
        let ghost g_next = gen_pairs(
            cfg@,
            views_of(avail@),
            strict,
            collective@,
            buf,
            dtype@,
            op@,
            algo@,
            allowed@,
            gans@,
            pi as int + 1,
        );
        let pair = allowed[pi];
        match gen_for_gans(
            cfg,
            avail,
            strict,
            collective,
            executable,
            buf,
            dtype,
            op,
            algo,
            pair,
            gans,
            tg,
        ) {
            Ok(mut v) => {
                let ghost pre = out@;
                let ghost vv = v@;
                out.append(&mut v);
                proof {
                    lemma_param_views_concat(pre, vv);
                    lemma_combine_step(param_views(pre), param_views(vv), g_next);
                    assert(param_views(pre) + param_views(vv) =~= param_views(out@));
                }
            }
            Err(e) => {
                proof {
                    assert(g_here is None);
                }
                return Err(e);
            }
        }
        pi += 1;
    }
    proof {
        assert(param_views(out@) + Seq::<ExperimentParamsModel>::empty() =~= param_views(out@));
    }
    Ok(out)
}

/// Generates the descriptors for one (collective, buffer, dtype, op) choice,
/// over the algorithm rules.
#[verifier::loop_isolation(false)]
fn gen_for_algos(
    cfg: &HarnessConfig,
    avail: &Vec<String>,
    strict: bool,
    collective: &str,
    executable: &String,
    buf: u64,
    dtype: &str,
    op: &str,
    algorithms: &Vec<AlgorithmRule>,
    gans: &Vec<bool>,
    tg: u64,
) -> (r: Result<Vec<MscclExperimentParams>, HarnessError>)
    requires
        cfg_wf(cfg@),
        tg == total_gpus_spec(cfg@),
        xml_collective_spec(collective@) is Some,
        forall|i: int|
            0 <= i < algorithms@.len() ==> is_known_algorithm(
                #[trigger] rule_views(algorithms@)[i].name,
            ),
        executable@ == exec_path_spec(cfg@, collective@),
    ensures
        gen_result_matches(
            r,
            gen_algos(
                cfg@,
                views_of(avail@),
                strict,
                collective@,
                buf,
                dtype@,
                op@,
                rule_views(algorithms@),
                gans@,
                0,
            ),
            views_of(avail@),
            strict,
        ),
{
    let ghost g0 = gen_algos(
        cfg@,
        views_of(avail@),
        strict,
        collective@,
        buf,
        dtype@,
        op@,
        rule_views(algorithms@),
        gans@,
        0,
    );
    let mut out: Vec<MscclExperimentParams> = Vec::new();
    proof {
        assert(param_views(out@) =~= Seq::<ExperimentParamsModel>::empty());
        if g0 is Some {
            assert(Seq::<ExperimentParamsModel>::empty() + g0.unwrap() =~= g0.unwrap());
        }
    }
    let mut ai: usize = 0;
    while ai < algorithms.len()
        invariant
            ai <= algorithms.len(),
            g0 == combine(
                Some(param_views(out@)),
                gen_algos(
                    cfg@,
                    views_of(avail@),
                    strict,
                    collective@,
                    buf,
                    dtype@,
                    op@,
                    rule_views(algorithms@),
                    gans@,
                    ai as int,
                ),
            ),
        decreases algorithms.len() - ai,
    {
        let ghost g_here = gen_algos(
            cfg@,
            views_of(avail@),
            strict,
            collective@,
            buf,
            dtype@,
            op@,
            rule_views(algorithms@),
            gans@,
            ai as int,
        );
        let ghost g_next = gen_algos(
            cfg@,
            views_of(avail@),
            strict,
            collective@,
            buf,
            dtype@,
            op@,
            rule_views(algorithms@),
            gans@,
            ai as int + 1,
        );
        let rule = &algorithms[ai];
        proof {
            assert(rule_views(algorithms@)[ai as int] == algorithms@[ai as int]@);
        }
        match gen_for_pairs(
            cfg,
            avail,
            strict,
            collective,
            executable,
            buf,
            dtype,
            op,
            rule.name.as_str(),
            &rule.allowed,
            gans,
            tg,
        ) {
            Ok(mut v) => {
                let ghost pre = out@;
                let ghost vv = v@;
                out.append(&mut v);
                proof {
                    lemma_param_views_concat(pre, vv);
                    lemma_combine_step(param_views(pre), param_views(vv), g_next);
                    assert(param_views(pre) + param_views(vv) =~= param_views(out@));
                }
            }
            Err(e) => {
                proof {
                    assert(g_here is None);
                }
                return Err(e);
            }
        }
        ai += 1;
    }
    proof {
        assert(param_views(out@) + Seq::<ExperimentParamsModel>::empty() =~= param_views(out@));
    }
    Ok(out)
}

/// Generates the descriptors for one (collective, buffer, dtype) choice,
/// over the reduction ops.
#[verifier::loop_isolation(false)]
fn gen_for_ops(
    cfg: &HarnessConfig,
    avail: &Vec<String>,
    strict: bool,
    collective: &str,
    executable: &String,
    buf: u64,
    dtype: &str,
    ops: &Vec<String>,
    algorithms: &Vec<AlgorithmRule>,
    gans: &Vec<bool>,
    tg: u64,
) -> (r: Result<Vec<MscclExperimentParams>, HarnessError>)
    requires
        cfg_wf(cfg@),
        tg == total_gpus_spec(cfg@),
        xml_collective_spec(collective@) is Some,
        forall|i: int|
            0 <= i < algorithms@.len() ==> is_known_algorithm(
                #[trigger] rule_views(algorithms@)[i].name,
            ),
        executable@ == exec_path_spec(cfg@, collective@),
    ensures
        gen_result_matches(
            r,
            gen_ops(
                cfg@,
                views_of(avail@),
                strict,
                collective@,
                buf,
                dtype@,
                views_of(ops@),
                rule_views(algorithms@),
                gans@,
                0,
            ),
            views_of(avail@),
            strict,
        ),
{
    let ghost g0 = gen_ops(
        cfg@,
        views_of(avail@),
        strict,
        collective@,
        buf,
        dtype@,
        views_of(ops@),
        rule_views(algorithms@),
        gans@,
        0,
    );
    let mut out: Vec<MscclExperimentParams> = Vec::new();
    proof {
        assert(param_views(out@) =~= Seq::<ExperimentParamsModel>::empty());
        if g0 is Some {
            assert(Seq::<ExperimentParamsModel>::empty() + g0.unwrap() =~= g0.unwrap());
        }
    }
    let mut oi: usize = 0;
    while oi < ops.len()
        invariant
            oi <= ops.len(),
            g0 == combine(
                Some(param_views(out@)),
                gen_ops(
                    cfg@,
                    views_of(avail@),
                    strict,
                    collective@,
                    buf,
                    dtype@,
                    views_of(ops@),
                    rule_views(algorithms@),
                    gans@,
                    oi as int,
                ),
            ),
        decreases ops.len() - oi,
    {
        let ghost g_here = gen_ops(
            cfg@,
            views_of(avail@),
            strict,
            collective@,
            buf,
            dtype@,
            views_of(ops@),
            rule_views(algorithms@),
            gans@,
            oi as int,
        );
        let ghost g_next = gen_ops(
            cfg@,
            views_of(avail@),
            strict,
            collective@,
            buf,
            dtype@,
            views_of(ops@),
            rule_views(algorithms@),
            gans@,
            oi as int + 1,
        );
        proof {
            assert(views_of(ops@)[oi as int] == ops@[oi as int]@);
        }
        match gen_for_algos(
            cfg,
            avail,
            strict,
            collective,
            executable,
            buf,
            dtype,
            ops[oi].as_str(),
            algorithms,
            gans,
            tg,
        ) {
            Ok(mut v) => {
                let ghost pre = out@;
                let ghost vv = v@;
                out.append(&mut v);
                proof {
                    lemma_param_views_concat(pre, vv);
                    lemma_combine_step(param_views(pre), param_views(vv), g_next);
                    assert(param_views(pre) + param_views(vv) =~= param_views(out@));
                }
            }
            Err(e) => {
                proof {
                    assert(g_here is None);
                }
                return Err(e);
            }
        }
        oi += 1;
    }
    proof {
        assert(param_views(out@) + Seq::<ExperimentParamsModel>::empty() =~= param_views(out@));
    }
    Ok(out)
}

/// Generates the descriptors for one (collective, buffer) choice, over the
/// data types.
#[verifier::loop_isolation(false)]
fn gen_for_dtypes(
    cfg: &HarnessConfig,
    avail: &Vec<String>,
    strict: bool,
    collective: &str,
    executable: &String,
    buf: u64,
    dts: &Vec<String>,
    ops: &Vec<String>,
    algorithms: &Vec<AlgorithmRule>,
    gans: &Vec<bool>,
    tg: u64,
) -> (r: Result<Vec<MscclExperimentParams>, HarnessError>)
    requires
        cfg_wf(cfg@),
        tg == total_gpus_spec(cfg@),
        xml_collective_spec(collective@) is Some,
        forall|i: int|
            0 <= i < algorithms@.len() ==> is_known_algorithm(
                #[trigger] rule_views(algorithms@)[i].name,
            ),
        executable@ == exec_path_spec(cfg@, collective@),
    ensures
        gen_result_matches(
            r,
            gen_dtypes(
                cfg@,
                views_of(avail@),
                strict,
                collective@,
                buf,
                views_of(dts@),
                views_of(ops@),
                rule_views(algorithms@),
                gans@,
                0,
            ),
            views_of(avail@),
            strict,
        ),
{
    let ghost g0 = gen_dtypes(
        cfg@,
        views_of(avail@),
        strict,
        collective@,
        buf,
        views_of(dts@),
        views_of(ops@),
        rule_views(algorithms@),
        gans@,
        0,
    );
    let mut out: Vec<MscclExperimentParams> = Vec::new();
    proof {
        assert(param_views(out@) =~= Seq::<ExperimentParamsModel>::empty());
        if g0 is Some {
            assert(Seq::<ExperimentParamsModel>::empty() + g0.unwrap() =~= g0.unwrap());
        }
    }
    let mut di: usize = 0;
    while di < dts.len()
        invariant
            di <= dts.len(),
            g0 == combine(
                Some(param_views(out@)),
                gen_dtypes(
                    cfg@,
                    views_of(avail@),
                    strict,
                    collective@,
                    buf,
                    views_of(dts@),
                    views_of(ops@),
                    rule_views(algorithms@),
                    gans@,
                    di as int,
                ),
            ),
        decreases dts.len() - di,
    {
        let ghost g_here = gen_dtypes(
            cfg@,
            views_of(avail@),
            strict,
            collective@,
            buf,
            views_of(dts@),
            views_of(ops@),
            rule_views(algorithms@),
            gans@,
            di as int,
        );
        let ghost g_next = gen_dtypes(
            cfg@,
            views_of(avail@),
            strict,
            collective@,
            buf,
            views_of(dts@),
            views_of(ops@),
            rule_views(algorithms@),
            gans@,
            di as int + 1,
        );
        proof {
            assert(views_of(dts@)[di as int] == dts@[di as int]@);
        }
        match gen_for_ops(
            cfg,
            avail,
            strict,
            collective,
            executable,
            buf,
            dts[di].as_str(),
            ops,
            algorithms,
            gans,
            tg,
        ) {
            Ok(mut v) => {
                let ghost pre = out@;
                let ghost vv = v@;
                out.append(&mut v);
                proof {
                    lemma_param_views_concat(pre, vv);
                    lemma_combine_step(param_views(pre), param_views(vv), g_next);
                    assert(param_views(pre) + param_views(vv) =~= param_views(out@));
                }
            }
            Err(e) => {
                proof {
                    assert(g_here is None);
                }
                return Err(e);
            }
        }
        di += 1;
    }
    proof {
        assert(param_views(out@) + Seq::<ExperimentParamsModel>::empty() =~= param_views(out@));
    }
    Ok(out)
}

/// Generates the descriptors for one collective, over the buffer-size
/// factors.
#[verifier::loop_isolation(false)]
fn gen_for_bufs(
    cfg: &HarnessConfig,
    avail: &Vec<String>,
    strict: bool,
    collective: &str,
    executable: &String,
    bufs: &Vec<u64>,
    dts: &Vec<String>,
    ops: &Vec<String>,
    algorithms: &Vec<AlgorithmRule>,
    gans: &Vec<bool>,
    tg: u64,
) -> (r: Result<Vec<MscclExperimentParams>, HarnessError>)
    requires
        cfg_wf(cfg@),
        tg == total_gpus_spec(cfg@),
        xml_collective_spec(collective@) is Some,
        forall|i: int|
            0 <= i < algorithms@.len() ==> is_known_algorithm(
                #[trigger] rule_views(algorithms@)[i].name,
            ),
        executable@ == exec_path_spec(cfg@, collective@),
    ensures
        gen_result_matches(
            r,
            gen_bufs(
                cfg@,
                views_of(avail@),
                strict,
                collective@,
                bufs@,
                views_of(dts@),
                views_of(ops@),
                rule_views(algorithms@),
                gans@,
                0,
            ),
            views_of(avail@),
            strict,
        ),
{
    let ghost g0 = gen_bufs(
        cfg@,
        views_of(avail@),
        strict,
        collective@,
        bufs@,
        views_of(dts@),
        views_of(ops@),
        rule_views(algorithms@),
        gans@,
        0,
    );
    let mut out: Vec<MscclExperimentParams> = Vec::new();
    proof {
        assert(param_views(out@) =~= Seq::<ExperimentParamsModel>::empty());
        if g0 is Some {
            assert(Seq::<ExperimentParamsModel>::empty() + g0.unwrap() =~= g0.unwrap());
        }
    }
    let mut bi: usize = 0;
    while bi < bufs.len()
        invariant
            bi <= bufs.len(),
            g0 == combine(
                Some(param_views(out@)),
                gen_bufs(
                    cfg@,
                    views_of(avail@),
                    strict,
                    collective@,
                    bufs@,
                    views_of(dts@),
                    views_of(ops@),
                    rule_views(algorithms@),
                    gans@,
                    bi as int,
                ),
            ),
        decreases bufs.len() - bi,
    {
        let ghost g_here = gen_bufs(
            cfg@,
            views_of(avail@),
            strict,
            collective@,
            bufs@,
            views_of(dts@),
            views_of(ops@),
            rule_views(algorithms@),
            gans@,
            bi as int,
        );
        let ghost g_next = gen_bufs(
            cfg@,
            views_of(avail@),
            strict,
            collective@,
            bufs@,
            views_of(dts@),
            views_of(ops@),
            rule_views(algorithms@),
            gans@,
            bi as int + 1,
        );
        match gen_for_dtypes(
            cfg,
            avail,
            strict,
            collective,
            executable,
            bufs[bi],
            dts,
            ops,
            algorithms,
            gans,
            tg,
        ) {
            Ok(mut v) => {
                let ghost pre = out@;
                let ghost vv = v@;
                out.append(&mut v);
                proof {
                    lemma_param_views_concat(pre, vv);
                    lemma_combine_step(param_views(pre), param_views(vv), g_next);
                    assert(param_views(pre) + param_views(vv) =~= param_views(out@));
                }
            }
            Err(e) => {
                proof {
                    assert(g_here is None);
                }
                return Err(e);
            }
        }
        bi += 1;
    }
    proof {
        assert(param_views(out@) + Seq::<ExperimentParamsModel>::empty() =~= param_views(out@));
    }
    Ok(out)
}

/// Checks that every collective and algorithm identifier of the sweep is in
/// the known vocabulary; the first unknown name is the fatal error.
pub fn validate_sweep(sweep: &SweepDimensions) -> (r: Result<(), HarnessError>)
    ensures
        r is Ok <==> sweep_names_valid(sweep@),
        r matches Err(HarnessError::UnknownCollective(c)) ==> sweep@.collectives.contains(c@)
            && xml_collective_spec(c@) is None,
        r matches Err(HarnessError::UnknownAlgorithm(a)) ==> (exists|i: int|
            0 <= i < sweep@.algorithms.len() && (#[trigger] sweep@.algorithms[i]).name == a@)
            && !is_known_algorithm(a@),
        r matches Err(e) ==> !(e matches HarnessError::MissingArtifact(_)),
{
    let mut ci: usize = 0;
    while ci < sweep.collectives.len()
        invariant
            ci <= sweep.collectives.len(),
            forall|i: int|
                0 <= i < ci ==> xml_collective_spec(#[trigger] sweep@.collectives[i]) is Some,
        decreases sweep.collectives.len() - ci,
    {
        proof {
            assert(sweep@.collectives[ci as int] == sweep.collectives@[ci as int]@);
        }
        match collective_to_test_exe(sweep.collectives[ci].as_str()) {
            Ok(_) => {
                proof {
                    lemma_collective_tables_agree(sweep@.collectives[ci as int]);
                }
            }
            Err(e) => {
                proof {
                    lemma_collective_tables_agree(sweep@.collectives[ci as int]);
                    assert(sweep@.collectives.contains(sweep@.collectives[ci as int]));
                }
                return Err(e);
            }
        }
        ci += 1;
    }
    let mut ai: usize = 0;
    while ai < sweep.algorithms.len()
        invariant
            ai <= sweep.algorithms.len(),
            forall|i: int|
                0 <= i < ai ==> is_known_algorithm((#[trigger] sweep@.algorithms[i]).name),
        decreases sweep.algorithms.len() - ai,
    {
        proof {
            assert(sweep@.algorithms[ai as int] == sweep.algorithms@[ai as int]@);
        }
        if !is_algorithm_known(sweep.algorithms[ai].name.as_str()) {
            let bad = sweep.algorithms[ai].name.clone();
            proof {
                assert(bad@ == sweep@.algorithms[ai as int].name);
                assert(!is_known_algorithm(bad@));
                assert(exists|i: int|
                    0 <= i < sweep@.algorithms.len() && (#[trigger] sweep@.algorithms[i]).name
                        == bad@) by {
                    assert((sweep@.algorithms[ai as int]).name == bad@);
                }
                assert(!sweep_names_valid(sweep@));
            }
            return Err(HarnessError::UnknownAlgorithm(bad));
        }
        ai += 1;
    }
    proof {
        assert(forall|i: int|
            0 <= i < sweep@.collectives.len() ==> xml_collective_spec(
                #[trigger] sweep@.collectives[i],
            ) is Some);
    }
    Ok(())
}

/// Expands the sweep into the ordered sequence of experiment descriptors.
/// `available_xmls` lists the companion-artifact filenames present in the
/// artifact directory; under `strict` a candidate whose computed artifact
/// name is not among them aborts the whole generation, otherwise the tuple
/// is silently omitted. An unknown collective or algorithm identifier is a
/// fatal configuration error in either mode.
#[verifier::loop_isolation(false)]
pub fn generate_experiments(
    cfg: &HarnessConfig,
    sweep: &SweepDimensions,
    available_xmls: &Vec<String>,
    strict: bool,
) -> (r: Result<Vec<MscclExperimentParams>, HarnessError>)
    requires
        cfg_wf(cfg@),
    ensures
        ({
            let g = gen_all(cfg@, views_of(available_xmls@), strict, sweep@);
            match r {
                Ok(v) => sweep_names_valid(sweep@) && g == Some(param_views(v@)),
                Err(HarnessError::UnknownCollective(c)) => !sweep_names_valid(sweep@)
                    && sweep@.collectives.contains(c@) && xml_collective_spec(c@) is None,
                Err(HarnessError::UnknownAlgorithm(a)) => !sweep_names_valid(sweep@) && (
                exists|i: int|
                    0 <= i < sweep@.algorithms.len() && (#[trigger] sweep@.algorithms[i]).name
                        == a@) && !is_known_algorithm(a@),
                Err(HarnessError::MissingArtifact(n)) => sweep_names_valid(sweep@) && strict
                    && g is None && !views_of(available_xmls@).contains(n@),
            }
        }),
{
    match validate_sweep(sweep) {
        Ok(()) => {}
        Err(e) => {
            return Err(e);
        }
    }
    let tg = cfg.num_nodes * cfg.gpus_per_node;
    let ghost g0 = gen_all(cfg@, views_of(available_xmls@), strict, sweep@);
    let mut out: Vec<MscclExperimentParams> = Vec::new();
    proof {
        assert(param_views(out@) =~= Seq::<ExperimentParamsModel>::empty());
        if g0 is Some {
            assert(Seq::<ExperimentParamsModel>::empty() + g0.unwrap() =~= g0.unwrap());
        }
    }
    let mut ci: usize = 0;
    while ci < sweep.collectives.len()
        invariant
            ci <= sweep.collectives.len(),
            g0 == combine(
                Some(param_views(out@)),
                gen_colls(cfg@, views_of(available_xmls@), strict, sweep@, ci as int),
            ),
        decreases sweep.collectives.len() - ci,
    {
        let ghost g_here = gen_colls(cfg@, views_of(available_xmls@), strict, sweep@, ci as int);
        let ghost g_next = gen_colls(
            cfg@,
            views_of(available_xmls@),
            strict,
            sweep@,
            ci as int + 1,
        );
        proof {
            assert(sweep@.collectives[ci as int] == sweep.collectives@[ci as int]@);
            lemma_collective_tables_agree(sweep@.collectives[ci as int]);
        }
        let collective = &sweep.collectives[ci];
        let exe = match collective_to_test_exe(collective.as_str()) {
            Ok(e) => e,
            Err(e) => {
                proof {
                    assert(false);
                }
                return Err(e);
            }
        };
        let mut epath = cfg.nccl_test_bins.clone();
        epath.append("/");
        epath.append(exe.as_str());
        proof {
            assert(epath@ =~= exec_path_spec(cfg@, collective@));
        }
        match gen_for_bufs(
            cfg,
            available_xmls,
            strict,
            collective.as_str(),
            &epath,
            &sweep.buffer_sizes,
            &sweep.data_types,
            &sweep.reduction_ops,
            &sweep.algorithms,
            &sweep.gpus_as_nodes,
            tg,
        ) {
            Ok(mut v) => {
                let ghost pre = out@;
                let ghost vv = v@;
                out.append(&mut v);
                proof {
                    lemma_param_views_concat(pre, vv);
                    lemma_combine_step(param_views(pre), param_views(vv), g_next);
                    assert(param_views(pre) + param_views(vv) =~= param_views(out@));
                }
            }
            Err(e) => {
                proof {
                    assert(g_here is None);
                }
                return Err(e);
            }
        }
        ci += 1;
    }
    proof {
        assert(param_views(out@) + Seq::<ExperimentParamsModel>::empty() =~= param_views(out@));
    }
    Ok(out)
}

// ---------------------------------------------------------------------------
// The generator's validity law
// ---------------------------------------------------------------------------
/// The descriptor's (channel, chunk) pair is in the allowed table of its
/// algorithm.
pub open spec fn pair_allowed(
    d: ExperimentParamsModel,
    algorithms: Seq<AlgorithmRuleModel>,
) -> bool {
    exists|i: int|
        0 <= i < algorithms.len() && (#[trigger] algorithms[i]).name == d.algorithm
            && algorithms[i].allowed.contains(
            ChannelChunk { channels: d.ms_channels, chunks: d.ms_chunks },
        )
}

proof fn lemma_gans_fields(
    cfg: HarnessConfigModel,
    avail: Seq<Seq<char>>,
    strict: bool,
    coll: Seq<char>,
    buf: u64,
    dt: Seq<char>,
    op: Seq<char>,
    algo: Seq<char>,
    pair: ChannelChunk,
    gans: Seq<bool>,
    gi: int,
)
    requires
        0 <= gi <= gans.len(),
        gen_gans(cfg, avail, strict, coll, buf, dt, op, algo, pair, gans, gi) is Some,
    ensures
        ({
            let ds = gen_gans(cfg, avail, strict, coll, buf, dt, op, algo, pair, gans, gi).unwrap();
            forall|k: int|
                0 <= k < ds.len() ==> (#[trigger] ds[k]).algorithm == algo && ds[k].ms_channels
                    == pair.channels && ds[k].ms_chunks == pair.chunks
        }),
    decreases gans.len() - gi,
{
    if gi < gans.len() {
        let ds = gen_gans(cfg, avail, strict, coll, buf, dt, op, algo, pair, gans, gi).unwrap();
        let rest = gen_gans(cfg, avail, strict, coll, buf, dt, op, algo, pair, gans, gi + 1);
        let gan = gans[gi];
        let name = xml_name_spec(
            coll,
            algo,
            cfg.num_nodes,
            total_gpus_spec(cfg),
            pair.channels,
            pair.chunks,
            gan,
        );
        lemma_gans_fields(cfg, avail, strict, coll, buf, dt, op, algo, pair, gans, gi + 1);
        if avail.contains(name) {
            let head = seq![desc_spec(cfg, coll, buf, dt, op, algo, pair, gan)];
            assert forall|k: int|
                0 <= k < ds.len() implies (#[trigger] ds[k]).algorithm == algo && ds[k].ms_channels
                == pair.channels && ds[k].ms_chunks == pair.chunks by {
                if k == 0 {
                    assert(ds[k] == head[0]);
                } else {
                    assert(ds[k] == rest.unwrap()[k - 1]);
                }
            }
        }
    }
}

proof fn lemma_pairs_allowed(
    cfg: HarnessConfigModel,
    avail: Seq<Seq<char>>,
    strict: bool,
    coll: Seq<char>,
    buf: u64,
    dt: Seq<char>,
    op: Seq<char>,
    algo: Seq<char>,
    allowed: Seq<ChannelChunk>,
    gans: Seq<bool>,
    pi: int,
)
    requires
        0 <= pi <= allowed.len(),
        gen_pairs(cfg, avail, strict, coll, buf, dt, op, algo, allowed, gans, pi) is Some,
    ensures
        ({
            let ds = gen_pairs(
                cfg,
                avail,
                strict,
                coll,
                buf,
                dt,
                op,
                algo,
                allowed,
                gans,
                pi,
            ).unwrap();
            forall|k: int|
                0 <= k < ds.len() ==> (#[trigger] ds[k]).algorithm == algo && allowed.contains(
                    ChannelChunk { channels: ds[k].ms_channels, chunks: ds[k].ms_chunks },
                )
        }),
    decreases allowed.len() - pi,
{
    if pi < allowed.len() {
        let ds = gen_pairs(cfg, avail, strict, coll, buf, dt, op, algo, allowed, gans, pi).unwrap();
        let head = gen_gans(cfg, avail, strict, coll, buf, dt, op, algo, allowed[pi], gans, 0);
        let rest = gen_pairs(cfg, avail, strict, coll, buf, dt, op, algo, allowed, gans, pi + 1);
        lemma_gans_fields(cfg, avail, strict, coll, buf, dt, op, algo, allowed[pi], gans, 0);
        lemma_pairs_allowed(cfg, avail, strict, coll, buf, dt, op, algo, allowed, gans, pi + 1);
        assert forall|k: int|
            0 <= k < ds.len() implies (#[trigger] ds[k]).algorithm == algo && allowed.contains(
            ChannelChunk { channels: ds[k].ms_channels, chunks: ds[k].ms_chunks },
        ) by {
            if k < head.unwrap().len() {
                assert(ds[k] == head.unwrap()[k]);
                assert(allowed[pi] == ChannelChunk {
                    channels: ds[k].ms_channels,
                    chunks: ds[k].ms_chunks,
                });
            } else {
                assert(ds[k] == rest.unwrap()[k - head.unwrap().len()]);
            }
        }
    }
}

proof fn lemma_algos_allowed(
    cfg: HarnessConfigModel,
    avail: Seq<Seq<char>>,
    strict: bool,
    coll: Seq<char>,
    buf: u64,
    dt: Seq<char>,
    op: Seq<char>,
    algorithms: Seq<AlgorithmRuleModel>,
    gans: Seq<bool>,
    ai: int,
)
    requires
        0 <= ai <= algorithms.len(),
        gen_algos(cfg, avail, strict, coll, buf, dt, op, algorithms, gans, ai) is Some,
    ensures
        ({
            let ds = gen_algos(cfg, avail, strict, coll, buf, dt, op, algorithms, gans, ai).unwrap();
            forall|k: int| 0 <= k < ds.len() ==> pair_allowed(#[trigger] ds[k], algorithms)
        }),
    decreases algorithms.len() - ai,
{
    if ai < algorithms.len() {
        let ds = gen_algos(cfg, avail, strict, coll, buf, dt, op, algorithms, gans, ai).unwrap();
        let head = gen_pairs(
            cfg,
            avail,
            strict,
            coll,
            buf,
            dt,
            op,
            algorithms[ai].name,
            algorithms[ai].allowed,
            gans,
            0,
        );
        let rest = gen_algos(cfg, avail, strict, coll, buf, dt, op, algorithms, gans, ai + 1);
        lemma_pairs_allowed(
            cfg,
            avail,
            strict,
            coll,
            buf,
            dt,
            op,
            algorithms[ai].name,
            algorithms[ai].allowed,
            gans,
            0,
        );
        lemma_algos_allowed(cfg, avail, strict, coll, buf, dt, op, algorithms, gans, ai + 1);
        assert forall|k: int| 0 <= k < ds.len() implies pair_allowed(
            #[trigger] ds[k],
            algorithms,
        ) by {
            if k < head.unwrap().len() {
                assert(ds[k] == head.unwrap()[k]);
                assert((algorithms[ai]).name == ds[k].algorithm && algorithms[ai].allowed.contains(
                    ChannelChunk { channels: ds[k].ms_channels, chunks: ds[k].ms_chunks },
                ));
            } else {
                assert(ds[k] == rest.unwrap()[k - head.unwrap().len()]);
            }
        }
    }
}

proof fn lemma_ops_allowed(
    cfg: HarnessConfigModel,
    avail: Seq<Seq<char>>,
    strict: bool,
    coll: Seq<char>,
    buf: u64,
    dt: Seq<char>,
    ops: Seq<Seq<char>>,
    algorithms: Seq<AlgorithmRuleModel>,
    gans: Seq<bool>,
    oi: int,
)
    requires
        0 <= oi <= ops.len(),
        gen_ops(cfg, avail, strict, coll, buf, dt, ops, algorithms, gans, oi) is Some,
    ensures
        ({
            let ds = gen_ops(cfg, avail, strict, coll, buf, dt, ops, algorithms, gans, oi).unwrap();
            forall|k: int| 0 <= k < ds.len() ==> pair_allowed(#[trigger] ds[k], algorithms)
        }),
    decreases ops.len() - oi,
{
    if oi < ops.len() {
        let ds = gen_ops(cfg, avail, strict, coll, buf, dt, ops, algorithms, gans, oi).unwrap();
        let head = gen_algos(cfg, avail, strict, coll, buf, dt, ops[oi], algorithms, gans, 0);
        let rest = gen_ops(cfg, avail, strict, coll, buf, dt, ops, algorithms, gans, oi + 1);
        lemma_algos_allowed(cfg, avail, strict, coll, buf, dt, ops[oi], algorithms, gans, 0);
        lemma_ops_allowed(cfg, avail, strict, coll, buf, dt, ops, algorithms, gans, oi + 1);
        assert forall|k: int| 0 <= k < ds.len() implies pair_allowed(
            #[trigger] ds[k],
            algorithms,
        ) by {
            if k < head.unwrap().len() {
                assert(ds[k] == head.unwrap()[k]);
            } else {
                assert(ds[k] == rest.unwrap()[k - head.unwrap().len()]);
            }
        }
    }
}

proof fn lemma_dtypes_allowed(
    cfg: HarnessConfigModel,
    avail: Seq<Seq<char>>,
    strict: bool,
    coll: Seq<char>,
    buf: u64,
    dts: Seq<Seq<char>>,
    ops: Seq<Seq<char>>,
    algorithms: Seq<AlgorithmRuleModel>,
    gans: Seq<bool>,
    di: int,
)
    requires
        0 <= di <= dts.len(),
        gen_dtypes(cfg, avail, strict, coll, buf, dts, ops, algorithms, gans, di) is Some,
    ensures
        ({
            let ds = gen_dtypes(
                cfg,
                avail,
                strict,
                coll,
                buf,
                dts,
                ops,
                algorithms,
                gans,
                di,
            ).unwrap();
            forall|k: int| 0 <= k < ds.len() ==> pair_allowed(#[trigger] ds[k], algorithms)
        }),
    decreases dts.len() - di,
{
    if di < dts.len() {
        let ds = gen_dtypes(cfg, avail, strict, coll, buf, dts, ops, algorithms, gans, di).unwrap();
        let head = gen_ops(cfg, avail, strict, coll, buf, dts[di], ops, algorithms, gans, 0);
        let rest = gen_dtypes(cfg, avail, strict, coll, buf, dts, ops, algorithms, gans, di + 1);
        lemma_ops_allowed(cfg, avail, strict, coll, buf, dts[di], ops, algorithms, gans, 0);
        lemma_dtypes_allowed(cfg, avail, strict, coll, buf, dts, ops, algorithms, gans, di + 1);
        assert forall|k: int| 0 <= k < ds.len() implies pair_allowed(
            #[trigger] ds[k],
            algorithms,
        ) by {
            if k < head.unwrap().len() {
                assert(ds[k] == head.unwrap()[k]);
            } else {
                assert(ds[k] == rest.unwrap()[k - head.unwrap().len()]);
            }
        }
    }
}

proof fn lemma_bufs_allowed(
    cfg: HarnessConfigModel,
    avail: Seq<Seq<char>>,
    strict: bool,
    coll: Seq<char>,
    bufs: Seq<u64>,
    dts: Seq<Seq<char>>,
    ops: Seq<Seq<char>>,
    algorithms: Seq<AlgorithmRuleModel>,
    gans: Seq<bool>,
    bi: int,
)
    requires
        0 <= bi <= bufs.len(),
        gen_bufs(cfg, avail, strict, coll, bufs, dts, ops, algorithms, gans, bi) is Some,
    ensures
        ({
            let ds = gen_bufs(
                cfg,
                avail,
                strict,
                coll,
                bufs,
                dts,
                ops,
                algorithms,
                gans,
                bi,
            ).unwrap();
            forall|k: int| 0 <= k < ds.len() ==> pair_allowed(#[trigger] ds[k], algorithms)
        }),
    decreases bufs.len() - bi,
{
    if bi < bufs.len() {
        let ds = gen_bufs(cfg, avail, strict, coll, bufs, dts, ops, algorithms, gans, bi).unwrap();
        let head = gen_dtypes(cfg, avail, strict, coll, bufs[bi], dts, ops, algorithms, gans, 0);
        let rest = gen_bufs(cfg, avail, strict, coll, bufs, dts, ops, algorithms, gans, bi + 1);
        lemma_dtypes_allowed(cfg, avail, strict, coll, bufs[bi], dts, ops, algorithms, gans, 0);
        lemma_bufs_allowed(cfg, avail, strict, coll, bufs, dts, ops, algorithms, gans, bi + 1);
        assert forall|k: int| 0 <= k < ds.len() implies pair_allowed(
            #[trigger] ds[k],
            algorithms,
        ) by {
            if k < head.unwrap().len() {
                assert(ds[k] == head.unwrap()[k]);
            } else {
                assert(ds[k] == rest.unwrap()[k - head.unwrap().len()]);
            }
        }
    }
}

proof fn lemma_colls_allowed(
    cfg: HarnessConfigModel,
    avail: Seq<Seq<char>>,
    strict: bool,
    sweep: SweepModel,
    ci: int,
)
    requires
        0 <= ci <= sweep.collectives.len(),
        gen_colls(cfg, avail, strict, sweep, ci) is Some,
    ensures
        ({
            let ds = gen_colls(cfg, avail, strict, sweep, ci).unwrap();
            forall|k: int| 0 <= k < ds.len() ==> pair_allowed(#[trigger] ds[k], sweep.algorithms)
        }),
    decreases sweep.collectives.len() - ci,
{
    if ci < sweep.collectives.len() {
        let ds = gen_colls(cfg, avail, strict, sweep, ci).unwrap();
        let head = gen_bufs(
            cfg,
            avail,
            strict,
            sweep.collectives[ci],
            sweep.buffer_sizes,
            sweep.data_types,
            sweep.reduction_ops,
            sweep.algorithms,
            sweep.gpus_as_nodes,
            0,
        );
        let rest = gen_colls(cfg, avail, strict, sweep, ci + 1);
        lemma_bufs_allowed(
            cfg,
            avail,
            strict,
            sweep.collectives[ci],
            sweep.buffer_sizes,
            sweep.data_types,
            sweep.reduction_ops,
            sweep.algorithms,
            sweep.gpus_as_nodes,
            0,
        );
        lemma_colls_allowed(cfg, avail, strict, sweep, ci + 1);
        assert forall|k: int| 0 <= k < ds.len() implies pair_allowed(
            #[trigger] ds[k],
            sweep.algorithms,
        ) by {
            if k < head.unwrap().len() {
                assert(ds[k] == head.unwrap()[k]);
            } else {
                assert(ds[k] == rest.unwrap()[k - head.unwrap().len()]);
            }
        }
    }
}

/// For every descriptor the generator produces, its (channel, chunk) pair is
/// a member of the allowed table configured for its algorithm: a combination
/// outside an algorithm's table never appears in the generated sequence.
pub proof fn lemma_generated_pairs_allowed(
    cfg: HarnessConfigModel,
    avail: Seq<Seq<char>>,
    strict: bool,
    sweep: SweepModel,
    descs: Seq<ExperimentParamsModel>,
)
    requires
        gen_all(cfg, avail, strict, sweep) == Some(descs),
    ensures
        forall|k: int| 0 <= k < descs.len() ==> pair_allowed(#[trigger] descs[k], sweep.algorithms),
{
    lemma_colls_allowed(cfg, avail, strict, sweep, 0);
    assert(gen_colls(cfg, avail, strict, sweep, 0) == Some(descs));
    assert(gen_colls(cfg, avail, strict, sweep, 0).unwrap() == descs);
    assert forall|k: int| 0 <= k < descs.len() implies pair_allowed(
        #[trigger] descs[k],
        sweep.algorithms,
    ) by {
        assert(descs[k] == gen_colls(cfg, avail, strict, sweep, 0).unwrap()[k]);
    }
}

/// The condensed permutation summary for one generated descriptor, as the
/// progress display shows it: the executable name, the dimension choices,
/// and the numeric choices rendered as strings.
pub fn permutation_of(d: &MscclExperimentParams) -> (r: Result<Permutation, HarnessError>)
    ensures
        r is Ok <==> collective_exe_spec(d@.nc_collective) is Some,
        r matches Ok(p) ==> p.collective_exe@ == collective_exe_spec(d@.nc_collective).unwrap()
            && p.reduction_op@ == d@.nc_op && p.data_type@ == d@.nc_dtype && p.comm_algorithm@
            == d@.algorithm && view_opt_string(p.msccl_channel) == Some(
            crate::text::u64_digits(d@.ms_channels as nat),
        ) && view_opt_string(p.msccl_chunk) == Some(crate::text::u64_digits(d@.ms_chunks as nat))
            && view_opt_string(p.buffer_size) == Some(
            crate::text::u64_digits(d@.buffer_size as nat),
        ),
        r matches Err(e) ==> e matches HarnessError::UnknownCollective(c) && c@
            == d@.nc_collective,
{
    let exe = match collective_to_test_exe(d.nc_collective.as_str()) {
        Ok(e) => e,
        Err(e) => {
            return Err(e);
        }
    };
    Ok(
        Permutation {
            collective_exe: exe,
            reduction_op: d.nc_op.clone(),
            data_type: d.nc_dtype.clone(),
            comm_algorithm: d.algorithm.clone(),
            msccl_channel: Some(u64_to_string(d.ms_channels)),
            msccl_chunk: Some(u64_to_string(d.ms_chunks)),
            buffer_size: Some(u64_to_string(d.buffer_size)),
        },
    )
}

} // verus!
