use vstd::prelude::*;
use crate::config::{AccountConfig, ExportConfig, OperatorConfig, UserConfig};
use crate::errors::ForgeError;
use crate::issuer::IssuerOp;
use crate::resolve::{
    all_imports_resolve, distinct_unique_names, find_label_target, has_import_cycle,
    import_cycle_through, is_account_index_order, is_label_target, label_resolves,
};
use crate::strutil::{dec_str, push_u64, views_of};

verus! {

use vstd::string::{StrSliceExecFns, StringExecFns};

/// The mathematical shape of one issuer operation: every name and subject
/// as plain character sequences.
pub enum IssuerOpView {
    InitOperator { name: Seq<char> },
    AddAccount { unique_name: Seq<char> },
    EditAccountLimits { unique_name: Seq<char>, max_connections: Option<int>, max_payload: Option<int> },
    AddExport { account: Seq<char>, subject: Seq<char>, is_service: bool },
    AddImport {
        name: Seq<char>,
        account: Seq<char>,
        src_account: Seq<char>,
        subject: Seq<char>,
        local_subject: Option<Seq<char>>,
        service: bool,
    },
    AddUser {
        account: Seq<char>,
        name: Seq<char>,
        allowed_subjects: Seq<Seq<char>>,
        denied_subjects: Seq<Seq<char>>,
        expiry: Option<Seq<char>>,
    },
    GenerateCreds { account: Seq<char>, user_name: Seq<char>, output_file: Seq<char> },
}

pub open spec fn op_view(op: IssuerOp) -> IssuerOpView {
    match op {
        IssuerOp::InitOperator { name } => IssuerOpView::InitOperator { name: name@ },
        IssuerOp::AddAccount { unique_name } => IssuerOpView::AddAccount {
            unique_name: unique_name@,
        },
        IssuerOp::EditAccountLimits { unique_name, max_connections, max_payload } => IssuerOpView::EditAccountLimits {
            unique_name: unique_name@,
            max_connections: match max_connections {
                Some(c) => Some(c as int),
                None => None,
            },
            max_payload: match max_payload {
                Some(p) => Some(p as int),
                None => None,
            },
        },
        IssuerOp::AddExport { account, subject, is_service } => IssuerOpView::AddExport {
            account: account@,
            subject: subject@,
            is_service,
        },
        IssuerOp::AddImport { name, account, src_account, subject, local_subject, service } => IssuerOpView::AddImport {
            name: name@,
            account: account@,
            src_account: src_account@,
            subject: subject@,
            local_subject: match local_subject {
                Some(ls) => Some(ls@),
                None => None,
            },
            service,
        },
        IssuerOp::AddUser { account, name, allowed_subjects, denied_subjects, expiry } => IssuerOpView::AddUser {
            account: account@,
            name: name@,
            allowed_subjects: views_of(allowed_subjects@),
            denied_subjects: views_of(denied_subjects@),
            expiry: match expiry {
                Some(e) => Some(e@),
                None => None,
            },
        },
        IssuerOp::GenerateCreds { account, user_name, output_file } => IssuerOpView::GenerateCreds {
            account: account@,
            user_name: user_name@,
            output_file: output_file@,
        },
    }
}

pub open spec fn ops_view(ops: Seq<IssuerOp>) -> Seq<IssuerOpView> {
    ops.map_values(|op: IssuerOp| op_view(op))
}

/// The account whose identity the issuer itself mints at initialization:
/// the designated system account labelled `SYS`. Its token is read back
/// from the store instead of being created again.
pub open spec fn is_default_sys(a: AccountConfig) -> bool {
    a.name@ == "SYS"@ && a.is_system_account
}

/// The account name users are issued under.
pub open spec fn user_label(a: AccountConfig) -> Seq<char> {
    if is_default_sys(a) {
        "SYS"@
    } else {
        a.unique_name@
    }
}

pub open spec fn needs_limit_edit(a: AccountConfig) -> bool {
    a.max_connections is Some || a.max_payload is Some
}

pub open spec fn spec_edit_seg(a: AccountConfig) -> Seq<IssuerOpView> {
    if needs_limit_edit(a) {
        seq![
            IssuerOpView::EditAccountLimits {
                unique_name: a.unique_name@,
                max_connections: match a.max_connections {
                    Some(c) => Some(c as int),
                    None => None,
                },
                max_payload: match a.max_payload {
                    Some(p) => Some(p as int),
                    None => None,
                },
            },
        ]
    } else {
        Seq::empty()
    }
}

pub open spec fn spec_export_ops(exports: Seq<ExportConfig>, unique_name: Seq<char>) -> Seq<
    IssuerOpView,
> {
    exports.map_values(
        |e: ExportConfig| IssuerOpView::AddExport {
            account: unique_name,
            subject: e.subject@,
            is_service: e.is_service,
        },
    )
}

/// The credential bundle file a user's credentials are written to.
pub open spec fn spec_creds_file(
    dir: Seq<char>,
    account_name: Seq<char>,
    user_name: Seq<char>,
) -> Seq<char> {
    dir + "/"@ + account_name + "-"@ + user_name + ".creds"@
}

pub open spec fn spec_user_ops(
    users: Seq<UserConfig>,
    label: Seq<char>,
    account_name: Seq<char>,
    dir: Seq<char>,
) -> Seq<IssuerOpView>
    decreases users.len(),
{
    if users.len() == 0 {
        Seq::empty()
    } else {
        spec_user_ops(users.drop_last(), label, account_name, dir) + seq![
            IssuerOpView::AddUser {
                account: label,
                name: users.last().name@,
                allowed_subjects: views_of(users.last().allowed_subjects@),
                denied_subjects: views_of(users.last().denied_subjects@),
                expiry: match users.last().expiry {
                    Some(e) => Some(e@),
                    None => None,
                },
            },
            IssuerOpView::GenerateCreds {
                account: label,
                user_name: users.last().name@,
                output_file: spec_creds_file(dir, account_name, users.last().name@),
            },
        ]
    }
}

/// Every operation that brings one account and its users into existence:
/// minting the account (unless the issuer already minted it as the default
/// system account), encoding its limits, adding its exports, then minting
/// each user and writing its credential bundle.
pub open spec fn spec_account_ops(a: AccountConfig, dir: Seq<char>) -> Seq<IssuerOpView> {
    (if is_default_sys(a) {
        Seq::empty()
    } else {
        seq![IssuerOpView::AddAccount { unique_name: a.unique_name@ }] + spec_edit_seg(a)
            + spec_export_ops(a.exports@, a.unique_name@)
    }) + spec_user_ops(a.users@, user_label(a), a.name@, dir)
}

fn clone_string_vec(v: &Vec<String>) -> (r: Vec<String>)
    ensures
        r@ == v@,
{
    let r = v.clone();
    proof {
        assert forall|i: int| 0 <= i < v@.len() implies r@[i] == v@[i] by {
            assert(cloned::<String>(v@[i], r@[i]));
        }
        assert(v@ =~= r@);
    }
    r
}

fn clone_opt_string(v: &Option<String>) -> (r: Option<String>)
    ensures
        r == *v,
{
    match v {
        Some(s) => Some(s.clone()),
        None => None,
    }
}

/// Whether this account is the issuer's own designated system account.
fn account_is_default_sys(a: &AccountConfig) -> (r: bool)
    ensures
        r == is_default_sys(*a),
{
    let sys = String::from_str("SYS");
    a.is_system_account && a.name == sys
}

/// Builds the issuer operations that create one account, its exports and
/// its users, in invocation order.
#[verifier::rlimit(50)]
pub fn account_creation_ops(account: &AccountConfig, output_dir: &String) -> (r: Vec<IssuerOp>)
    ensures
        ops_view(r@) == spec_account_ops(*account, output_dir@),
{
    let mut ops: Vec<IssuerOp> = Vec::new();
    let default_sys = account_is_default_sys(account);
    if !default_sys {
        ops.push(IssuerOp::AddAccount { unique_name: account.unique_name.clone() });
        if account.max_connections.is_some() || account.max_payload.is_some() {
            ops.push(
                IssuerOp::EditAccountLimits {
                    unique_name: account.unique_name.clone(),
                    max_connections: account.max_connections,
                    max_payload: account.max_payload,
                },
            );
        }
        let ghost head = ops_view(ops@);
        proof {
            assert(head =~= seq![
                IssuerOpView::AddAccount { unique_name: account.unique_name@ },
            ] + spec_edit_seg(*account));
        }
        let exports = &account.exports;
        let mut k: usize = 0;
        while k < exports.len()
            invariant
                k <= exports@.len(),
                exports@ == account.exports@,
                ops_view(ops@) == head + spec_export_ops(
                    exports@.take(k as int),
                    account.unique_name@,
                ),
            decreases exports@.len() - k,
        {
            let ghost pre2 = ops@;
            ops.push(
                IssuerOp::AddExport {
                    account: account.unique_name.clone(),
                    subject: exports[k].subject.clone(),
                    is_service: exports[k].is_service,
                },
            );
            proof {
                assert(ops_view(ops@) =~= ops_view(pre2).push(op_view(ops@[ops@.len() - 1])));
                assert(spec_export_ops(exports@.take(k + 1), account.unique_name@)
                    =~= spec_export_ops(exports@.take(k as int), account.unique_name@).push(
                    op_view(ops@[ops@.len() - 1]),
                ));
                assert(ops_view(ops@) =~= head + spec_export_ops(
                    exports@.take(k + 1),
                    account.unique_name@,
                ));
            }
            k = k + 1;
        }
        proof {
            assert(exports@.take(exports@.len() as int) =~= exports@);
        }
    }
    let ghost mid = ops_view(ops@);
    proof {
        if is_default_sys(*account) {
            assert(mid =~= Seq::<IssuerOpView>::empty());
        } else {
            assert(mid =~= seq![IssuerOpView::AddAccount { unique_name: account.unique_name@ }]
                + spec_edit_seg(*account) + spec_export_ops(
                account.exports@,
                account.unique_name@,
            ));
        }
    }

    let label = if default_sys {
        String::from_str("SYS")
    } else {
        account.unique_name.clone()
    };
    proof {
        assert(label@ == user_label(*account));
    }
    let users = &account.users;
    let mut k: usize = 0;
    while k < users.len()
        invariant
            k <= users@.len(),
            users@ == account.users@,
            label@ == user_label(*account),
            ops_view(ops@) == mid + spec_user_ops(
                users@.take(k as int),
                user_label(*account),
                account.name@,
                output_dir@,
            ),
        decreases users@.len() - k,
    {
        let mut creds_file = output_dir.clone();
        creds_file.append("/");
        creds_file.append(account.name.as_str());
        creds_file.append("-");
        creds_file.append(users[k].name.as_str());
        creds_file.append(".creds");
        proof {
            assert(creds_file@ =~= spec_creds_file(
                output_dir@,
                account.name@,
                users@[k as int].name@,
            ));
        }
        let ghost pre2 = ops@;
        ops.push(
            IssuerOp::AddUser {
                account: label.clone(),
                name: users[k].name.clone(),
                allowed_subjects: clone_string_vec(&users[k].allowed_subjects),
                denied_subjects: clone_string_vec(&users[k].denied_subjects),
                expiry: clone_opt_string(&users[k].expiry),
            },
        );
        let ghost mid1 = ops@;
        ops.push(
            IssuerOp::GenerateCreds {
                account: label.clone(),
                user_name: users[k].name.clone(),
                output_file: creds_file,
            },
        );
        proof {
            assert(users@.take(k + 1).drop_last() =~= users@.take(k as int));
            assert(users@.take(k + 1).last() == users@[k as int]);
            assert(ops_view(mid1) =~= ops_view(pre2).push(op_view(mid1[mid1.len() - 1])));
            assert(ops_view(ops@) =~= ops_view(mid1).push(op_view(ops@[ops@.len() - 1])));
            assert(spec_user_ops(
                users@.take(k + 1),
                user_label(*account),
                account.name@,
                output_dir@,
            ) =~= spec_user_ops(
                users@.take(k as int),
                user_label(*account),
                account.name@,
                output_dir@,
            ).push(op_view(mid1[mid1.len() - 1])).push(op_view(ops@[ops@.len() - 1])));
            assert(ops_view(ops@) =~= mid + spec_user_ops(
                users@.take(k + 1),
                user_label(*account),
                account.name@,
                output_dir@,
            ));
        }
        k = k + 1;
    }
    proof {
        assert(users@.take(users@.len() as int) =~= users@);
        assert(ops_view(ops@) =~= spec_account_ops(*account, output_dir@));
    }
    ops
}

/// The account a label refers to, as an index.
pub open spec fn target_of(accounts: Seq<AccountConfig>, label: Seq<char>) -> int {
    choose|u: int| is_label_target(accounts, label, u)
}

proof fn lemma_target_of(accounts: Seq<AccountConfig>, label: Seq<char>, u: int)
    requires
        is_label_target(accounts, label, u),
    ensures
        target_of(accounts, label) == u,
{
    let u2 = target_of(accounts, label);
    assert(is_label_target(accounts, label, u2));
    if u2 != u {
        if u2 < u {
            assert(accounts[u].name@ != label);
        } else {
            assert(accounts[u2].name@ != label);
        }
    }
}

/// The wiring operation for one import edge: the importing account pulls
/// the subject from the account its label resolves to.
pub open spec fn spec_import_op(accounts: Seq<AccountConfig>, v: int, j: int) -> IssuerOpView {
    IssuerOpView::AddImport {
        name: "import-"@ + dec_str(j as nat),
        account: accounts[v].unique_name@,
        src_account: accounts[target_of(accounts, accounts[v].imports@[j].account@)].unique_name@,
        subject: accounts[v].imports@[j].subject@,
        local_subject: match accounts[v].imports@[j].local_subject {
            Some(ls) => Some(ls@),
            None => None,
        },
        service: accounts[v].imports@[j].service,
    }
}

pub open spec fn spec_account_import_ops(accounts: Seq<AccountConfig>, v: int) -> Seq<
    IssuerOpView,
> {
    Seq::new(accounts[v].imports@.len(), |j: int| spec_import_op(accounts, v, j))
}

/// The whole wiring phase: the import edges of every account, account by
/// account in declaration order. It runs only after every account exists.
pub open spec fn spec_import_phase(accounts: Seq<AccountConfig>, upto: int) -> Seq<IssuerOpView>
    decreases upto,
{
    if upto <= 0 {
        Seq::empty()
    } else {
        spec_import_phase(accounts, upto - 1) + spec_account_import_ops(accounts, upto - 1)
    }
}

/// Builds the wiring operations for every import edge of the deployment.
/// They stand strictly after the whole account phase, so both ends of each
/// edge exist when it is wired.
#[verifier::rlimit(50)]
pub fn import_wiring_ops(accounts: &Vec<AccountConfig>) -> (r: Vec<IssuerOp>)
    requires
        all_imports_resolve(accounts@),
    ensures
        ops_view(r@) == spec_import_phase(accounts@, accounts@.len() as int),
{
    let mut ops: Vec<IssuerOp> = Vec::new();
    let mut v: usize = 0;
    while v < accounts.len()
        invariant
            v <= accounts@.len(),
            all_imports_resolve(accounts@),
            ops_view(ops@) == spec_import_phase(accounts@, v as int),
        decreases accounts@.len() - v,
    {
        let imports = &accounts[v].imports;
        let mut j: usize = 0;
        while j < imports.len()
            invariant
                v < accounts@.len(),
                j <= imports@.len(),
                imports@ == accounts@[v as int].imports@,
                all_imports_resolve(accounts@),
                ops_view(ops@) == spec_import_phase(accounts@, v as int)
                    + spec_account_import_ops(accounts@, v as int).take(j as int),
            decreases imports@.len() - j,
        {
            let src = match find_label_target(accounts, &imports[j].account) {
                Some(u) => u,
                None => {
                    proof {
                        assert(label_resolves(
                            accounts@,
                            accounts@[v as int].imports@[j as int].account@,
                        ));
                        assert(false);
                    }
                    vstd::pervasive::unreached()
                },
            };
            let mut op_name = String::from_str("import-");
            push_u64(&mut op_name, j as u64);
            proof {
                assert(op_name@ == "import-"@ + dec_str(j as nat));
            }
            let ghost pre2 = ops@;
            ops.push(
                IssuerOp::AddImport {
                    name: op_name,
                    account: accounts[v].unique_name.clone(),
                    src_account: accounts[src].unique_name.clone(),
                    subject: imports[j].subject.clone(),
                    local_subject: clone_opt_string(&imports[j].local_subject),
                    service: imports[j].service,
                },
            );
            proof {
                lemma_target_of(
                    accounts@,
                    accounts@[v as int].imports@[j as int].account@,
                    src as int,
                );
                assert(op_view(ops@[ops@.len() - 1]) == spec_import_op(
                    accounts@,
                    v as int,
                    j as int,
                ));
                assert(ops_view(ops@) =~= ops_view(pre2).push(op_view(ops@[ops@.len() - 1])));
                assert(spec_account_import_ops(accounts@, v as int).take(j + 1)
                    =~= spec_account_import_ops(accounts@, v as int).take(j as int).push(
                    spec_import_op(accounts@, v as int, j as int),
                ));
                assert(ops_view(ops@) =~= spec_import_phase(accounts@, v as int)
                    + spec_account_import_ops(accounts@, v as int).take(j + 1));
            }
            j = j + 1;
        }
        proof {
            assert(spec_account_import_ops(accounts@, v as int).take(
                spec_account_import_ops(accounts@, v as int).len() as int,
            ) =~= spec_account_import_ops(accounts@, v as int));
            assert(ops_view(ops@) =~= spec_import_phase(accounts@, v as int + 1));
        }
        v = v + 1;
    }
    ops
}

/// The full deployment plan: a safe creation order, the account phase, and
/// the wiring phase that follows it.
#[derive(Debug, Clone, PartialEq, Eq)]
pub struct DeploymentPlan {
    /// The account indices in creation order.
    pub creation_order: Vec<usize>,
    /// Account, export and user operations, account by account in creation
    /// order.
    pub account_ops: Vec<IssuerOp>,
    /// Import wiring operations; all of them run after every account
    /// operation.
    pub import_ops: Vec<IssuerOp>,
}

/// The account phase of a plan: the creation operations of each account in
/// the given order, with each account's artifacts going to its server's
/// output location.
pub open spec fn spec_account_phase(
    accounts: Seq<AccountConfig>,
    dirs: Seq<String>,
    ord: Seq<usize>,
) -> Seq<IssuerOpView>
    decreases ord.len(),
{
    if ord.len() == 0 {
        Seq::empty()
    } else {
        spec_account_phase(accounts, dirs, ord.drop_last()) + spec_account_ops(
            accounts[ord.last() as int],
            dirs[ord.last() as int]@,
        )
    }
}

/// Plans a whole deployment run over the flattened account list (with each
/// account's server output location alongside). Validation runs first:
/// duplicate unique names, unresolvable imports and cyclic import graphs
/// are rejected before any operation is planned. On success the plan holds
/// the account phase in a safe creation order and the wiring phase after
/// it.
pub fn plan_deployment(accounts: &Vec<AccountConfig>, output_dirs: &Vec<String>) -> (r: Result<
    DeploymentPlan,
    ForgeError,
>)
    requires
        output_dirs@.len() == accounts@.len(),
    ensures
        match r {
            Ok(plan) => {
                &&& distinct_unique_names(accounts@)
                &&& all_imports_resolve(accounts@)
                &&& !has_import_cycle(accounts@)
                &&& is_account_index_order(accounts@, plan.creation_order@)
                &&& ops_view(plan.account_ops@) == spec_account_phase(
                    accounts@,
                    output_dirs@,
                    plan.creation_order@,
                )
                &&& ops_view(plan.import_ops@) == spec_import_phase(
                    accounts@,
                    accounts@.len() as int,
                )
            },
            Err(e) => match e {
                ForgeError::DuplicateUniqueName { unique_name } => exists|i: int, k: int|
                    0 <= i < k < accounts@.len() && accounts@[i].unique_name@
                        == accounts@[k].unique_name@ && accounts@[k].unique_name@ == unique_name@,
                ForgeError::UnknownImportTarget { account, target_name } => distinct_unique_names(
                    accounts@,
                ) && exists|v: int, j: int|
                    0 <= v < accounts@.len() && 0 <= j < accounts@[v].imports@.len()
                        && accounts@[v].name@ == account@ && accounts@[v].imports@[j].account@
                        == target_name@ && !label_resolves(accounts@, target_name@),
                ForgeError::DependencyCycle { involved_account } => distinct_unique_names(accounts@)
                    && all_imports_resolve(accounts@) && has_import_cycle(accounts@)
                    && import_cycle_through(accounts@, involved_account@),
                _ => false,
            },
        },
{
    let ord = match crate::resolve::resolve_creation_indices(accounts) {
        Err(e) => {
            return Err(e);
        },
        Ok(o) => o,
    };
    let mut account_ops: Vec<IssuerOp> = Vec::new();
    let mut t: usize = 0;
    while t < ord.len()
        invariant
            t <= ord@.len(),
            output_dirs@.len() == accounts@.len(),
            is_account_index_order(accounts@, ord@),
            ops_view(account_ops@) == spec_account_phase(
                accounts@,
                output_dirs@,
                ord@.take(t as int),
            ),
        decreases ord@.len() - t,
    {
        let idx = ord[t];
        let mut ops = account_creation_ops(&accounts[idx], &output_dirs[idx]);
        let ghost pre = account_ops@;
        let ghost addition = ops@;
        account_ops.append(&mut ops);
        proof {
            assert(account_ops@ == pre + addition);
            assert(ops_view(pre + addition) =~= ops_view(pre) + ops_view(addition));
            assert(ord@.take(t + 1).drop_last() =~= ord@.take(t as int));
            assert(ord@.take(t + 1).last() == ord@[t as int]);
            assert(ops_view(account_ops@) =~= spec_account_phase(
                accounts@,
                output_dirs@,
                ord@.take(t + 1),
            ));
        }
        t = t + 1;
    }
    proof {
        assert(ord@.take(ord@.len() as int) =~= ord@);
    }
    let import_ops = import_wiring_ops(accounts);
    Ok(DeploymentPlan { creation_order: ord, account_ops, import_ops })
}

/// The operation that mints the operator identity and initializes the
/// trust store.
pub fn operator_init_op(operator: &OperatorConfig) -> (r: IssuerOp)
    ensures
        op_view(r) == (IssuerOpView::InitOperator { name: operator.name@ }),
{
    IssuerOp::InitOperator { name: operator.name.clone() }
}

} // verus!
