//! Admission of new nodes into the configuration, the arguments a node
//! process is started with, and the bootstrap of the default identity.

use vstd::prelude::*;
use crate::api::{Request, RequestBody, Response, ResponseBody, Status};
use crate::base::{CreateNodeRequest, NodeStatus};
use crate::config::{GlobalConfig, NodeRecord};
use crate::overseer::Overseer;
use crate::text::{concat, decimal, join_path, joined, owned, to_decimal, views};

verus! {

/// What `slug::slugify` makes of a string: lower-case ASCII letters, digits
/// and single dashes.
pub uninterp spec fn slug_of(s: Seq<char>) -> Seq<char>;

/// Relies on `slug::slugify`: a file-name-safe form of the text, which
/// depends on the text alone.
#[verifier::external_body]
fn slugify(s: &str) -> (r: String)
    ensures
        r@ == slug_of(s@),
{
    slug::slugify(s)
}

/// An address a node listens on.
pub struct BindAddress {
    /// The host part, as written before the port (`[..]` around IPv6)
    pub host: String,
    /// The address as `host:port`
    pub addr: String,
    pub port: u16,
}

/// The default listen address: any free port on the loopback interface.
pub open spec fn any_loopback_port() -> Seq<char> {
    "127.0.0.1:0"@
}

/// Whether a parsed listen address asks for a free port to be found: its
/// port is 0.
pub fn needs_port_probe(parsed: &Option<BindAddress>) -> (r: bool)
    ensures
        r == (parsed matches Some(p) && p.port == 0),
{
    match parsed {
        Some(p) => p.port == 0,
        None => false,
    }
}

/// Whether `r` resolves a listen address that was parsed as `parsed`, with
/// `probed` the free port a probe on its host found: no address is a
/// `BadRequest`; a concrete port is kept; port 0 takes the probed port on the
/// same host, `InternalServerError` where the probe found none.
pub open spec fn resolves(parsed: Option<BindAddress>, probed: Option<u16>, r: Result<BindAddress, Status>) -> bool {
    match parsed {
        None => r == Err::<BindAddress, Status>(Status::BadRequest),
        Some(p) => if p.port != 0 {
            r == Ok::<BindAddress, Status>(p)
        } else {
            match probed {
                Some(q) => if q != 0 {
                    match r {
                        Ok(b) => b.host@ == p.host@ && b.port == q && b.addr@ == p.host@ + ":"@ + decimal(q as nat),
                        Err(_) => false,
                    }
                } else {
                    r == Err::<BindAddress, Status>(Status::InternalServerError)
                },
                None => r == Err::<BindAddress, Status>(Status::InternalServerError),
            }
        },
    }
}

/// Resolves a requested listen address, given how it parsed and, for port
/// 0, the free port that a probe on its host found.
pub fn get_open_tcp_address(parsed: Option<BindAddress>, probed_port: Option<u16>) -> (r: Result<BindAddress, Status>)
    ensures
        resolves(parsed, probed_port, r),
{
    match parsed {
        None => Err(Status::BadRequest),
        Some(p) => {
            if p.port != 0 {
                return Ok(p);
            }
            match probed_port {
                Some(q) => {
                    if q == 0 {
                        return Err(Status::InternalServerError);
                    }
                    let digits = to_decimal(q as u64);
                    let with_colon = concat(p.host.as_str(), ":");
                    let addr = concat(with_colon.as_str(), digits.as_str());
                    Ok(BindAddress { host: p.host, addr, port: q })
                },
                None => Err(Status::InternalServerError),
            }
        },
    }
}

/// Where a node of this name keeps its state, under the data directory.
pub open spec fn state_dir_path(data_dir: Seq<char>, name: Seq<char>) -> Seq<char> {
    joined(data_dir, slug_of("node-"@ + name))
}

/// The name and port that each managed node claims, in order.
pub open spec fn claims(cfg: GlobalConfig) -> Seq<(Seq<char>, u16)> {
    cfg.nodes@.map_values(|n: NodeRecord| (n.name@, n.port))
}

/// Whether some claim carries this name.
pub open spec fn name_taken(c: Seq<(Seq<char>, u16)>, name: Seq<char>) -> bool {
    exists|i: int| 0 <= i < c.len() && (#[trigger] c[i]).0 == name
}

/// Whether some claim carries this port.
pub open spec fn port_taken(c: Seq<(Seq<char>, u16)>, port: u16) -> bool {
    exists|i: int| 0 <= i < c.len() && (#[trigger] c[i]).1 == port
}

/// No two claims carry the same name.
pub open spec fn names_distinct(c: Seq<(Seq<char>, u16)>) -> bool {
    forall|i: int, j: int| 0 <= i < j < c.len() ==> (#[trigger] c[i]).0 != (#[trigger] c[j]).0
}

/// One request to create a node, with what was found outside: whether the
/// port could be bound, and whether the state directory was made.
pub struct CreateAttempt {
    pub name: Seq<char>,
    pub port: u16,
    pub port_free: bool,
    pub dir_ready: bool,
}

/// The outcome of an attempt: `Conflict` for a name or port already taken or
/// a port that could not be bound, `BadRequest` without platform
/// directories, `InternalServerError` where the state directory could not be
/// made.
pub open spec fn create_result(c: Seq<(Seq<char>, u16)>, has_dirs: bool, a: CreateAttempt) -> Result<(), Status> {
    if name_taken(c, a.name) {
        Err(Status::Conflict)
    } else if !a.port_free || port_taken(c, a.port) {
        Err(Status::Conflict)
    } else if !has_dirs {
        Err(Status::BadRequest)
    } else if !a.dir_ready {
        Err(Status::InternalServerError)
    } else {
        Ok(())
    }
}

/// The claims after an attempt: one more where it succeeded.
pub open spec fn claims_after(c: Seq<(Seq<char>, u16)>, has_dirs: bool, a: CreateAttempt) -> Seq<(Seq<char>, u16)> {
    if create_result(c, has_dirs, a) is Ok {
        c.push((a.name, a.port))
    } else {
        c
    }
}

/// The claims after a sequence of attempts, made one after another.
pub open spec fn run_creates(c: Seq<(Seq<char>, u16)>, has_dirs: bool, attempts: Seq<CreateAttempt>) -> Seq<(Seq<char>, u16)>
    decreases attempts.len(),
{
    if attempts.len() == 0 {
        c
    } else {
        claims_after(run_creates(c, has_dirs, attempts.drop_last()), has_dirs, attempts.last())
    }
}

/// The outcome of the attempt at position `k` of a sequence.
pub open spec fn result_at(c: Seq<(Seq<char>, u16)>, has_dirs: bool, attempts: Seq<CreateAttempt>, k: int) -> Result<(), Status> {
    create_result(run_creates(c, has_dirs, attempts.take(k)), has_dirs, attempts[k])
}

proof fn lemma_run_step(c: Seq<(Seq<char>, u16)>, has_dirs: bool, attempts: Seq<CreateAttempt>, k: int)
    requires
        0 <= k < attempts.len(),
    ensures
        run_creates(c, has_dirs, attempts.take(k + 1)) == claims_after(
            run_creates(c, has_dirs, attempts.take(k)),
            has_dirs,
            attempts[k],
        ),
{
    assert(attempts.take(k + 1).drop_last() =~= attempts.take(k));
}

proof fn lemma_run_grows(c: Seq<(Seq<char>, u16)>, has_dirs: bool, attempts: Seq<CreateAttempt>, k: int, j: int)
    requires
        0 <= k <= j <= attempts.len(),
    ensures
        run_creates(c, has_dirs, attempts.take(k)).len() <= run_creates(c, has_dirs, attempts.take(j)).len(),
        forall|i: int|
            0 <= i < run_creates(c, has_dirs, attempts.take(k)).len() ==> #[trigger] run_creates(
                c,
                has_dirs,
                attempts.take(j),
            )[i] == run_creates(c, has_dirs, attempts.take(k))[i],
    decreases j - k,
{
    if j > k {
        lemma_run_grows(c, has_dirs, attempts, k, j - 1);
        lemma_run_step(c, has_dirs, attempts, j - 1);
    }
}

proof fn lemma_run_distinct(c: Seq<(Seq<char>, u16)>, has_dirs: bool, attempts: Seq<CreateAttempt>, k: int)
    requires
        0 <= k <= attempts.len(),
        names_distinct(c),
    ensures
        names_distinct(run_creates(c, has_dirs, attempts.take(k))),
    decreases k,
{
    if k > 0 {
        lemma_run_distinct(c, has_dirs, attempts, k - 1);
        lemma_run_step(c, has_dirs, attempts, k - 1);
        let before = run_creates(c, has_dirs, attempts.take(k - 1));
        let a = attempts[k - 1];
        if create_result(before, has_dirs, a) is Ok {
            let after = before.push((a.name, a.port));
            assert forall|i: int, j: int| 0 <= i < j < after.len() implies (#[trigger] after[i]).0
                != (#[trigger] after[j]).0 by {
                if j == before.len() {
                    assert(before[i] == after[i]);
                }
            }
        }
    }
}

/// Once a node of some name was created, every later request to create a
/// node of that name fails with `Conflict`; the names of the managed nodes
/// stay distinct, so the configuration holds exactly one record of a name
/// whose creation succeeded.
pub proof fn lemma_name_uniqueness(c: Seq<(Seq<char>, u16)>, has_dirs: bool, attempts: Seq<CreateAttempt>)
    requires
        names_distinct(c),
    ensures
        names_distinct(run_creates(c, has_dirs, attempts)),
        forall|k1: int, k2: int|
            0 <= k1 < k2 < attempts.len() && attempts[k1].name == attempts[k2].name
                && #[trigger] result_at(c, has_dirs, attempts, k1) is Ok ==> #[trigger] result_at(
                c,
                has_dirs,
                attempts,
                k2,
            ) == Err::<(), Status>(Status::Conflict),
        forall|k: int|
            0 <= k < attempts.len() && #[trigger] result_at(c, has_dirs, attempts, k) is Ok ==> exists|i: int|
                0 <= i < run_creates(c, has_dirs, attempts).len() && (#[trigger] run_creates(
                    c,
                    has_dirs,
                    attempts,
                )[i]).0 == attempts[k].name,
{
    let n = attempts.len() as int;
    assert(attempts.take(n) =~= attempts);
    lemma_run_distinct(c, has_dirs, attempts, n);
    assert forall|k1: int, k2: int|
        0 <= k1 < k2 < attempts.len() && attempts[k1].name == attempts[k2].name
            && #[trigger] result_at(c, has_dirs, attempts, k1) is Ok implies #[trigger] result_at(
            c,
            has_dirs,
            attempts,
            k2,
        ) == Err::<(), Status>(Status::Conflict) by {
        lemma_run_step(c, has_dirs, attempts, k1);
        lemma_run_grows(c, has_dirs, attempts, k1 + 1, k2);
        let at_k1 = run_creates(c, has_dirs, attempts.take(k1 + 1));
        let idx = at_k1.len() - 1;
        assert(at_k1[idx].0 == attempts[k1].name);
        assert(run_creates(c, has_dirs, attempts.take(k2))[idx] == at_k1[idx]);
        assert(name_taken(run_creates(c, has_dirs, attempts.take(k2)), attempts[k2].name));
    }
    assert forall|k: int|
        0 <= k < attempts.len() && #[trigger] result_at(c, has_dirs, attempts, k) is Ok implies exists|i: int|
            0 <= i < run_creates(c, has_dirs, attempts).len() && (#[trigger] run_creates(
                c,
                has_dirs,
                attempts,
            )[i]).0 == attempts[k].name by {
        lemma_run_step(c, has_dirs, attempts, k);
        lemma_run_grows(c, has_dirs, attempts, k + 1, n);
        let at_k = run_creates(c, has_dirs, attempts.take(k + 1));
        let idx = at_k.len() - 1;
        assert(run_creates(c, has_dirs, attempts)[idx] == at_k[idx]);
    }
}

/// Of two requests to create nodes on the same port, the later one fails
/// with `Conflict` once the earlier one succeeded.
pub proof fn lemma_port_exclusivity(c: Seq<(Seq<char>, u16)>, has_dirs: bool, attempts: Seq<CreateAttempt>)
    ensures
        forall|k1: int, k2: int|
            0 <= k1 < k2 < attempts.len() && attempts[k1].port == attempts[k2].port
                && #[trigger] result_at(c, has_dirs, attempts, k1) is Ok ==> #[trigger] result_at(
                c,
                has_dirs,
                attempts,
                k2,
            ) == Err::<(), Status>(Status::Conflict),
{
    assert forall|k1: int, k2: int|
        0 <= k1 < k2 < attempts.len() && attempts[k1].port == attempts[k2].port
            && #[trigger] result_at(c, has_dirs, attempts, k1) is Ok implies #[trigger] result_at(
            c,
            has_dirs,
            attempts,
            k2,
        ) == Err::<(), Status>(Status::Conflict) by {
        lemma_run_step(c, has_dirs, attempts, k1);
        lemma_run_grows(c, has_dirs, attempts, k1 + 1, k2);
        let at_k1 = run_creates(c, has_dirs, attempts.take(k1 + 1));
        let idx = at_k1.len() - 1;
        assert(at_k1[idx].1 == attempts[k1].port);
        assert(run_creates(c, has_dirs, attempts.take(k2))[idx] == at_k1[idx]);
        assert(port_taken(run_creates(c, has_dirs, attempts.take(k2)), attempts[k2].port));
    }
}

} // verus!

verus! {

/// Whether a record is the one a successful creation adds.
pub open spec fn is_new_record(
    n: NodeRecord,
    name: Seq<char>,
    bind: BindAddress,
    verbose: u8,
    data_dir: Seq<char>,
) -> bool {
    &&& n.name@ == name
    &&& n.addr@ == bind.addr@
    &&& n.port == bind.port
    &&& n.pid is None
    &&& n.verbose == verbose
    &&& n.state_dir matches Some(d) && d@ == state_dir_path(data_dir, name)
}

/// The view of an optional string.
pub open spec fn opt_view(s: Option<String>) -> Option<Seq<char>> {
    match s {
        Some(x) => Some(x@),
        None => None,
    }
}

/// The view of an optional byte vector.
pub open spec fn opt_bytes(v: Option<Vec<u8>>) -> Option<Seq<u8>> {
    match v {
        Some(x) => Some(x@),
        None => None,
    }
}

/// The default vault file under a configuration directory.
pub open spec fn default_vault_path_in(config_dir: Seq<char>) -> Seq<char> {
    joined(config_dir, "default_vault.json"@)
}

/// The default vault path and identity after a bootstrap: those already
/// recorded are kept; a missing vault path is derived from the configuration
/// directory, and a missing identity is the freshly created one.
pub open spec fn bootstrapped(
    vault: Option<Seq<char>>,
    identity: Option<Seq<u8>>,
    config_dir: Seq<char>,
    fresh: Seq<u8>,
) -> (Seq<char>, Seq<u8>) {
    (
        match vault {
            Some(p) => p,
            None => default_vault_path_in(config_dir),
        },
        match identity {
            Some(i) => i,
            None => fresh,
        },
    )
}

/// Bootstrapping the default identity twice in a row leaves the vault path
/// and the identity of the first bootstrap: no second identity is made.
pub proof fn lemma_bootstrap_idempotent(
    vault: Option<Seq<char>>,
    identity: Option<Seq<u8>>,
    config_dir: Seq<char>,
    first: Seq<u8>,
    second: Seq<u8>,
)
    ensures
        ({
            let once = bootstrapped(vault, identity, config_dir, first);
            bootstrapped(Some(once.0), Some(once.1), config_dir, second) == once
        }),
{
}

/// The flag that sets how verbose a node is: `-vv` where nothing was asked,
/// else one `v` for each level.
pub open spec fn verbosity_flag(v: u8) -> Seq<char> {
    if v == 0 {
        "-vv"@
    } else {
        "-"@ + Seq::new(v as nat, |i: int| 'v')
    }
}

/// The arguments a node process is started with.
pub open spec fn spawn_arguments(req: CreateNodeRequest, addr: Seq<char>) -> Seq<Seq<char>> {
    seq![
        verbosity_flag(req.verbose),
        "--no-color"@,
        "node"@,
        "create"@,
        "--tcp-listener-address"@,
        addr,
        "--foreground"@,
        "--child-process"@,
    ] + (match req.project {
        Some(p) => seq!["--project"@, p@],
        None => Seq::empty(),
    }) + (if req.skip_defaults {
        seq!["--skip-defaults"@]
    } else {
        Seq::empty()
    }) + (if req.no_shared_identity {
        seq!["--no-shared-identity"@]
    } else {
        Seq::empty()
    }) + (if req.enable_credential_checks {
        seq!["--enable-credential-checks"@]
    } else {
        Seq::empty()
    }) + seq![req.node_name@]
}

/// How a node process is started: where its output goes, and its arguments.
pub struct SpawnPlan {
    /// Log of the standard output, opened for appending
    pub stdout_log: String,
    /// Log of the standard error, opened for appending
    pub stderr_log: String,
    pub args: Vec<String>,
}

/// Whether a plan starts the node of this record for this request.
pub open spec fn plans_spawn(p: SpawnPlan, dir: Seq<char>, req: CreateNodeRequest, addr: Seq<char>) -> bool {
    &&& p.stdout_log@ == joined(dir, req.node_name@ + ".log"@)
    &&& p.stderr_log@ == joined(dir, req.node_name@ + ".log.stderr"@)
    &&& views(p.args@) == spawn_arguments(req, addr)
}

/// Where a node of this name keeps its state, under the data directory.
pub fn state_dir_for(data_dir: &str, name: &str) -> (r: String)
    ensures
        r@ == state_dir_path(data_dir@, name@),
{
    let label = concat("node-", name);
    let slug = slugify(label.as_str());
    join_path(data_dir, slug.as_str())
}

fn verbosity_arg(v: u8) -> (r: String)
    ensures
        r@ == verbosity_flag(v),
{
    if v == 0 {
        return owned("-vv");
    }
    let mut r = owned("-");
    let mut i: u8 = 0;
    while i < v
        invariant
            i <= v,
            r@ == "-"@ + Seq::new(i as nat, |k: int| 'v'),
        decreases v - i,
    {
        proof {
            reveal_strlit("v");
        }
        r.append("v");
        i = i + 1;
        assert(r@ =~= "-"@ + Seq::new(i as nat, |k: int| 'v'));
    }
    r
}

fn push_arg(args: &mut Vec<String>, s: String)
    ensures
        views(final(args)@) == views(old(args)@).push(s@),
{
    args.push(s);
    assert(views(args@) =~= views(old(args)@).push(s@));
}

/// The arguments a node process is started with.
pub fn node_arguments(req: &CreateNodeRequest, addr: &str) -> (r: Vec<String>)
    ensures
        views(r@) == spawn_arguments(*req, addr@),
{
    let mut args: Vec<String> = Vec::new();
    push_arg(&mut args, verbosity_arg(req.verbose));
    push_arg(&mut args, owned("--no-color"));
    push_arg(&mut args, owned("node"));
    push_arg(&mut args, owned("create"));
    push_arg(&mut args, owned("--tcp-listener-address"));
    push_arg(&mut args, owned(addr));
    push_arg(&mut args, owned("--foreground"));
    push_arg(&mut args, owned("--child-process"));
    let ghost fixed = views(args@);
    match &req.project {
        Some(p) => {
            push_arg(&mut args, owned("--project"));
            push_arg(&mut args, p.clone());
        },
        None => {},
    }
    let ghost with_project = views(args@);
    if req.skip_defaults {
        push_arg(&mut args, owned("--skip-defaults"));
    }
    let ghost with_skip = views(args@);
    if req.no_shared_identity {
        push_arg(&mut args, owned("--no-shared-identity"));
    }
    let ghost with_shared = views(args@);
    if req.enable_credential_checks {
        push_arg(&mut args, owned("--enable-credential-checks"));
    }
    let ghost with_checks = views(args@);
    push_arg(&mut args, req.node_name.clone());
    proof {
        let tail_project: Seq<Seq<char>> = if req.project is Some {
            seq!["--project"@, req.project->0@]
        } else {
            Seq::empty()
        };
        assert(with_project =~= fixed + tail_project);
        assert(views(args@) =~= spawn_arguments(*req, addr@));
    }
    args
}

proof fn lemma_claims_match(cfg: GlobalConfig, name: Seq<char>, port: u16)
    ensures
        name_taken(claims(cfg), name) == cfg.has_node(name),
        port_taken(claims(cfg), port) == cfg.port_claimed(port),
        cfg.wf() ==> names_distinct(claims(cfg)),
{
    let c = claims(cfg);
    if cfg.has_node(name) {
        let i = choose|i: int| 0 <= i < cfg.nodes@.len() && #[trigger] cfg.nodes@[i].name@ == name;
        assert(c[i].0 == name);
    }
    if name_taken(c, name) {
        let i = choose|i: int| 0 <= i < c.len() && (#[trigger] c[i]).0 == name;
        assert(cfg.nodes@[i].name@ == name);
    }
    if cfg.port_claimed(port) {
        let i = choose|i: int| 0 <= i < cfg.nodes@.len() && #[trigger] cfg.nodes@[i].port == port;
        assert(c[i].1 == port);
    }
    if port_taken(c, port) {
        let i = choose|i: int| 0 <= i < c.len() && (#[trigger] c[i]).1 == port;
        assert(cfg.nodes@[i].port == port);
    }
    if cfg.wf() {
        assert forall|i: int, j: int| 0 <= i < j < c.len() implies (#[trigger] c[i]).0 != (#[trigger] c[j]).0 by {
            assert(cfg.nodes@[i].name@ != cfg.nodes@[j].name@);
        }
    }
}

/// The node that a `POST /node` asks for: `BadRequest` where the request
/// carries no node to create.
pub fn create_node_body(req: &Request) -> (r: Result<&CreateNodeRequest, Response>)
    ensures
        match req.body {
            RequestBody::CreateNode(b) => r matches Ok(x) && *x == b,
            _ => r matches Err(resp) && resp.id == req.id && resp.status == Status::BadRequest && resp.body is Empty,
        },
{
    match &req.body {
        RequestBody::CreateNode(b) => Ok(b),
        _ => Err(Response::builder(req.id, Status::BadRequest)),
    }
}

/// A step of `POST /node`, in the order they run.
#[derive(Copy, Clone, Debug, PartialEq, Eq, Structural)]
pub enum PostNodeStep {
    /// Resolve the listen address, probing for a free port where it asks
    ResolveAddress,
    /// Check and record the node, with its state directory, and store the
    /// configuration
    CreateNode,
    /// Make sure a default vault and identity exist
    CreateIdentity,
    /// Start the node's process and record its process id
    SpawnNode,
}

/// What to do next in `POST /node`: run a step, or answer.
pub enum PostNodeAction {
    Run(PostNodeStep),
    Respond(Response),
}

/// The step that follows a successful one.
pub open spec fn next_step(s: PostNodeStep) -> Option<PostNodeStep> {
    match s {
        PostNodeStep::ResolveAddress => Some(PostNodeStep::CreateNode),
        PostNodeStep::CreateNode => Some(PostNodeStep::CreateIdentity),
        PostNodeStep::CreateIdentity => Some(PostNodeStep::SpawnNode),
        PostNodeStep::SpawnNode => None,
    }
}

/// Whether a response tells that the node of this name was created: under
/// this id, the node, pending.
pub open spec fn is_created_response(resp: Response, id: u32, name: Seq<char>) -> bool {
    &&& resp.id == id
    &&& resp.status == Status::Success
    &&& match resp.body {
        ResponseBody::Node(s) => s.node_name@ == name && s.status@ == "Pending"@ && s.workers == 0 && s.pid == 0
            && s.transports == 0 && s.details is None,
        _ => false,
    }
}

/// How `POST /node` begins: with the first step where the request carries a
/// node to create, else with `BadRequest`.
pub open spec fn post_node_begun(req: Request, a: PostNodeAction) -> bool {
    match req.body {
        RequestBody::CreateNode(_) => a == PostNodeAction::Run(PostNodeStep::ResolveAddress),
        _ => match a {
            PostNodeAction::Respond(resp) => resp.id == req.id && resp.status == Status::BadRequest && resp.body is Empty,
            _ => false,
        },
    }
}

/// How `POST /node` goes on after a step: the first failure is the answer,
/// with its status; a success runs the next step; after the last one the
/// node is reported created.
pub open spec fn post_node_stepped(req: Request, step: PostNodeStep, outcome: Result<(), Status>, a: PostNodeAction) -> bool {
    match outcome {
        Err(e) => match a {
            PostNodeAction::Respond(resp) => resp.id == req.id && resp.status == e && resp.body is Empty,
            _ => false,
        },
        Ok(_) => match next_step(step) {
            Some(n) => a == PostNodeAction::Run(n),
            None => match (a, req.body) {
                (PostNodeAction::Respond(resp), RequestBody::CreateNode(b)) => is_created_response(resp, req.id, b.node_name@),
                _ => false,
            },
        },
    }
}

/// The first action of `POST /node`.
pub fn post_node_start(req: &Request) -> (r: PostNodeAction)
    ensures
        post_node_begun(*req, r),
{
    match create_node_body(req) {
        Ok(_) => PostNodeAction::Run(PostNodeStep::ResolveAddress),
        Err(resp) => PostNodeAction::Respond(resp),
    }
}

/// The action of `POST /node` after `step` ended with `outcome`.
pub fn post_node_step(req: &Request, step: PostNodeStep, outcome: Result<(), Status>) -> (r: PostNodeAction)
    requires
        req.body is CreateNode,
    ensures
        post_node_stepped(*req, step, outcome, r),
{
    if let Err(e) = outcome {
        return PostNodeAction::Respond(Response::builder(req.id, e));
    }
    match step {
        PostNodeStep::ResolveAddress => PostNodeAction::Run(PostNodeStep::CreateNode),
        PostNodeStep::CreateNode => PostNodeAction::Run(PostNodeStep::CreateIdentity),
        PostNodeStep::CreateIdentity => PostNodeAction::Run(PostNodeStep::SpawnNode),
        PostNodeStep::SpawnNode => match &req.body {
            RequestBody::CreateNode(b) => PostNodeAction::Respond(node_created(req, b.node_name.as_str())),
            _ => PostNodeAction::Respond(Response::builder(req.id, Status::BadRequest)),
        },
    }
}

/// Every answer to `POST /node`, at its start or after any step, carries the
/// request's id; a request without a node to create is a `BadRequest`.
pub proof fn lemma_post_node_correlation(req: Request, step: PostNodeStep, outcome: Result<(), Status>, a: PostNodeAction, b: PostNodeAction)
    requires
        post_node_begun(req, a),
        post_node_stepped(req, step, outcome, b),
    ensures
        a matches PostNodeAction::Respond(resp) ==> resp.id == req.id && resp.status == Status::BadRequest,
        b matches PostNodeAction::Respond(resp) ==> resp.id == req.id,
{
}

/// A node created on a port-zero address listens on the port the probe
/// found, on the host that was asked for, and its process is started with
/// that address.
pub proof fn lemma_probed_port_recorded(
    parsed: BindAddress,
    probed: u16,
    bind: BindAddress,
    record: NodeRecord,
    req: CreateNodeRequest,
    data_dir: Seq<char>,
)
    requires
        parsed.port == 0,
        probed != 0,
        resolves(Some(parsed), Some(probed), Ok::<BindAddress, Status>(bind)),
        is_new_record(record, req.node_name@, bind, req.verbose, data_dir),
    ensures
        record.port == probed,
        record.port != 0,
        record.addr@ == parsed.host@ + ":"@ + decimal(probed as nat),
        spawn_arguments(req, bind.addr@)[5] == record.addr@,
{
}

/// The response to a request that created a node: the node, pending.
pub fn node_created(req: &Request, name: &str) -> (r: Response)
    ensures
        r.id == req.id,
        r.status == Status::Success,
        r.body matches ResponseBody::Node(s) && s.node_name@ == name@ && s.status@ == "Pending"@
            && s.workers == 0 && s.pid == 0 && s.transports == 0 && s.details is None,
{
    Response::ok(req.id, ResponseBody::Node(NodeStatus::new(owned(name), owned("Pending"), 0, 0, 0, None)))
}

impl Overseer {
    /// Checks a request to create a node against the configuration and
    /// yields the state directory the node would get: the checks of
    /// `create_node`, made before its state directory is made.
    pub fn admit_node(&self, name: &str, bind: &BindAddress, port_free: bool) -> (r: Result<String, Status>)
        requires
            self.config.wf(),
        ensures
            match create_result(
                claims(self.config),
                self.config.directories is Some,
                (CreateAttempt { name: name@, port: bind.port, port_free, dir_ready: true }),
            ) {
                Ok(_) => r matches Ok(dir) && dir@ == state_dir_path(
                    self.config.directories->0.data_local_dir@,
                    name@,
                ),
                Err(e) => r == Err::<String, Status>(e),
            },
    {
        proof {
            lemma_claims_match(self.config, name@, bind.port);
        }
        if self.config.contains_node(name) {
            return Err(Status::Conflict);
        }
        if !port_free || self.config.port_in_use(bind.port) {
            return Err(Status::Conflict);
        }
        match &self.config.directories {
            Some(d) => Ok(state_dir_for(d.data_local_dir.as_str(), name)),
            None => Err(Status::BadRequest),
        }
    }

    /// Creates the record of a node: `Conflict` where its name or port is
    /// taken or the port could not be bound, `BadRequest` without platform
    /// directories, `InternalServerError` where its state directory could not
    /// be made; else the record is added, with its lookup entry, and the
    /// first node becomes the default.
    ///
    /// The record stays once added, also where a later step (storing the
    /// configuration, starting the process) fails: such a node is listed
    /// without a process id until `record_pid` gives it one.
    pub fn create_node(
        &mut self,
        name: &str,
        bind: &BindAddress,
        verbose: u8,
        port_free: bool,
        dir_ready: bool,
    ) -> (r: Result<(), Status>)
        requires
            old(self).config.wf(),
        ensures
            final(self).config.wf(),
            r == create_result(
                claims(old(self).config),
                old(self).config.directories is Some,
                (CreateAttempt { name: name@, port: bind.port, port_free, dir_ready }),
            ),
            claims(final(self).config) == claims_after(
                claims(old(self).config),
                old(self).config.directories is Some,
                (CreateAttempt { name: name@, port: bind.port, port_free, dir_ready }),
            ),
            r is Ok ==> final(self).config.nodes@.len() == old(self).config.nodes@.len() + 1
                && final(self).config.nodes@.drop_last() == old(self).config.nodes@
                && is_new_record(
                final(self).config.nodes@.last(),
                name@,
                *bind,
                verbose,
                old(self).config.directories->0.data_local_dir@,
            ),
            r is Ok && old(self).config.default is None ==> opt_view(final(self).config.default) == Some(name@),
            r is Ok && old(self).config.default is Some ==> final(self).config.default == old(self).config.default,
            r is Err ==> final(self).config == old(self).config,
            final(self).config.directories == old(self).config.directories,
            final(self).config.default_vault_path == old(self).config.default_vault_path,
            final(self).config.default_identity == old(self).config.default_identity,
            final(self).config_path == old(self).config_path,
    {
        proof {
            lemma_claims_match(self.config, name@, bind.port);
        }
        if self.config.contains_node(name) {
            return Err(Status::Conflict);
        }
        if !port_free || self.config.port_in_use(bind.port) {
            return Err(Status::Conflict);
        }
        let state_dir = match &self.config.directories {
            Some(d) => state_dir_for(d.data_local_dir.as_str(), name),
            None => return Err(Status::BadRequest),
        };
        if !dir_ready {
            return Err(Status::InternalServerError);
        }
        let record = NodeRecord {
            name: owned(name),
            addr: bind.addr.clone(),
            port: bind.port,
            pid: None,
            verbose,
            state_dir: Some(state_dir),
        };
        let ghost before = self.config.nodes@;
        self.config.insert_node(record);
        proof {
            assert(self.config.nodes@.drop_last() =~= before);
            assert(claims(self.config) =~= claims(old(self).config).push((name@, bind.port)));
        }
        Ok(())
    }

    /// The plan to start the process of a managed node: `NotFound` where no
    /// node of the request's name is managed, `InternalServerError` where its
    /// record holds no state directory.
    pub fn spawn_node(&self, req: &CreateNodeRequest, tcp_listener_address: &str) -> (r: Result<SpawnPlan, Status>)
        requires
            self.config.wf(),
        ensures
            !self.config.has_node(req.node_name@) ==> r == Err::<SpawnPlan, Status>(Status::NotFound),
            forall|i: int|
                0 <= i < self.config.nodes@.len() && (#[trigger] self.config.nodes@[i]).name@
                    == req.node_name@ ==> match self.config.nodes@[i].state_dir {
                    Some(dir) => r matches Ok(p) && plans_spawn(p, dir@, *req, tcp_listener_address@),
                    None => r == Err::<SpawnPlan, Status>(Status::InternalServerError),
                },
    {
        let i = match self.config.find_node(req.node_name.as_str()) {
            Some(i) => i,
            None => return Err(Status::NotFound),
        };
        let node = &self.config.nodes[i];
        let base = match &node.state_dir {
            Some(d) => d.as_str(),
            None => return Err(Status::InternalServerError),
        };
        let main_log = concat(req.node_name.as_str(), ".log");
        let err_log = concat(req.node_name.as_str(), ".log.stderr");
        Ok(SpawnPlan {
            stdout_log: join_path(base, main_log.as_str()),
            stderr_log: join_path(base, err_log.as_str()),
            args: node_arguments(req, tcp_listener_address),
        })
    }

    /// Records the process id of a started node: `NotFound` where no node of
    /// that name is managed.
    pub fn record_pid(&mut self, name: &str, pid: i32) -> (r: Result<(), Status>)
        requires
            old(self).config.wf(),
        ensures
            final(self).config.wf(),
            r is Ok <==> old(self).config.has_node(name@),
            r is Err ==> r == Err::<(), Status>(Status::NotFound) && final(self).config == old(self).config,
            final(self).config.nodes@.len() == old(self).config.nodes@.len(),
            forall|i: int|
                0 <= i < old(self).config.nodes@.len() ==> {
                    let n = old(self).config.nodes@[i];
                    let m = #[trigger] final(self).config.nodes@[i];
                    if n.name@ == name@ {
                        &&& m.name == n.name
                        &&& m.addr == n.addr
                        &&& m.port == n.port
                        &&& m.pid == Some(pid)
                        &&& m.verbose == n.verbose
                        &&& m.state_dir == n.state_dir
                    } else {
                        m == n
                    }
                },
            final(self).config.lookup == old(self).config.lookup,
            final(self).config.default == old(self).config.default,
            final(self).config.directories == old(self).config.directories,
            final(self).config.default_vault_path == old(self).config.default_vault_path,
            final(self).config.default_identity == old(self).config.default_identity,
            final(self).config_path == old(self).config_path,
    {
        let i = match self.config.find_node(name) {
            Some(i) => i,
            None => return Err(Status::NotFound),
        };
        let ghost before = self.config.nodes@;
        let node = self.config.nodes.remove(i);
        let updated = NodeRecord {
            name: node.name,
            addr: node.addr,
            port: node.port,
            pid: Some(pid),
            verbose: node.verbose,
            state_dir: node.state_dir,
        };
        self.config.nodes.insert(i, updated);
        proof {
            assert(self.config.nodes@ =~= before.update(i as int, updated));
            assert forall|a: int, b: int| 0 <= a < b < self.config.nodes@.len() implies #[trigger] self.config.nodes@[a].name@
                != #[trigger] self.config.nodes@[b].name@ by {
                assert(before[a].name@ != before[b].name@);
            }
            assert forall|k: int| 0 <= k < old(self).config.nodes@.len() && before[k].name@ == name@ implies k == i by {
                if k != i {
                    assert(before[k].name@ != before[i as int].name@ || k == i);
                }
            }
        }
        Ok(())
    }

    /// Makes sure a default vault path is recorded, deriving one under the
    /// configuration directory where none is, and yields it.
    pub fn ensure_default_vault_path(&mut self, config_dir: &str) -> (r: String)
        ensures
            r@ == bootstrapped(
                opt_view(old(self).config.default_vault_path),
                None,
                config_dir@,
                Seq::empty(),
            ).0,
            opt_view(final(self).config.default_vault_path) == Some(r@),
            old(self).config.default_vault_path is Some ==> final(self).config == old(self).config,
            final(self).config.nodes == old(self).config.nodes,
            final(self).config.lookup == old(self).config.lookup,
            final(self).config.default == old(self).config.default,
            final(self).config.directories == old(self).config.directories,
            final(self).config.default_identity == old(self).config.default_identity,
            final(self).config_path == old(self).config_path,
    {
        match &self.config.default_vault_path {
            Some(p) => p.clone(),
            None => {
                let p = join_path(config_dir, "default_vault.json");
                self.config.default_vault_path = Some(p.clone());
                p
            },
        }
    }

    /// Records a freshly created identity as the default one, unless a
    /// default identity is already recorded.
    pub fn adopt_default_identity(&mut self, exported: Vec<u8>)
        ensures
            opt_bytes(final(self).config.default_identity) == Some(
                bootstrapped(None, opt_bytes(old(self).config.default_identity), Seq::empty(), exported@).1,
            ),
            old(self).config.default_identity is Some ==> final(self).config == old(self).config,
            final(self).config.nodes == old(self).config.nodes,
            final(self).config.lookup == old(self).config.lookup,
            final(self).config.default == old(self).config.default,
            final(self).config.directories == old(self).config.directories,
            final(self).config.default_vault_path == old(self).config.default_vault_path,
            final(self).config_path == old(self).config_path,
    {
        if self.config.default_identity.is_none() {
            self.config.default_identity = Some(exported);
        }
    }
}

} // verus!
