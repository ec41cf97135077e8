use vstd::prelude::*;
use crate::strutil::{dec_str_signed, i64_to_string, join_with, join_comma, views_of};

verus! {

use vstd::string::{StrSliceExecFns, StringExecFns};

/// One discrete operation of the external identity issuer. Each holds the
/// named parameters its invocation takes; `issuer_args` renders the exact
/// argument vector.
#[derive(Debug, Clone, PartialEq, Eq)]
pub enum IssuerOp {
    /// Initialize the trust store and mint the operator identity.
    InitOperator { name: String },
    /// Mint an account identity.
    AddAccount { unique_name: String },
    /// Encode connection and payload limits into an account.
    EditAccountLimits { unique_name: String, max_connections: Option<i32>, max_payload: Option<i64> },
    /// Add a named export entry to an account.
    AddExport { account: String, subject: String, is_service: bool },
    /// Wire one import edge; both accounts must already exist.
    AddImport {
        name: String,
        account: String,
        src_account: String,
        subject: String,
        local_subject: Option<String>,
        service: bool,
    },
    /// Mint a user identity under an account.
    AddUser {
        account: String,
        name: String,
        allowed_subjects: Vec<String>,
        denied_subjects: Vec<String>,
        expiry: Option<String>,
    },
    /// Write a user's credential bundle to a file.
    GenerateCreds { account: String, user_name: String, output_file: String },
}

/// The day part of an expiry timestamp: everything before the first `T`,
/// which is the granularity the issuer accepts.
pub open spec fn date_part(s: Seq<char>) -> Seq<char> {
    match s.index_of_first('T') {
        Some(i) => s.take(i),
        None => s,
    }
}

/// Truncates an expiry timestamp to its day part.
pub fn expiry_date_arg(expiry: &String) -> (r: String)
    ensures
        r@ == date_part(expiry@),
{
    let n = expiry.as_str().unicode_len();
    let mut i: usize = 0;
    while i < n
        invariant
            i <= n == expiry@.len(),
            forall|t: int| 0 <= t < i ==> expiry@[t] != 'T',
        decreases n - i,
    {
        if expiry.as_str().get_char(i) == 'T' {
            proof {
                expiry@.index_of_first_ensures('T');
            }
            return expiry.as_str().substring_char(0, i).to_owned();
        }
        i = i + 1;
    }
    proof {
        expiry@.index_of_first_ensures('T');
        if expiry@.index_of_first('T') is Some {
            assert(expiry@.contains('T'));
        }
    }
    expiry.clone()
}

/// The exact argument vector one issuer operation is invoked with, given
/// the trust store location.
pub open spec fn spec_issuer_args(op: IssuerOp, store: Seq<char>) -> Seq<Seq<char>> {
    match op {
        IssuerOp::InitOperator { name } => seq![
            "init"@,
            "--name"@,
            name@,
            "--dir"@,
            store,
            "--data-dir"@,
            store,
        ],
        IssuerOp::AddAccount { unique_name } => seq![
            "add"@,
            "account"@,
            "--name"@,
            unique_name@,
            "--data-dir"@,
            store,
        ],
        IssuerOp::EditAccountLimits { unique_name, max_connections, max_payload } => seq![
            "edit"@,
            "account"@,
            "--name"@,
            unique_name@,
            "--data-dir"@,
            store,
        ] + (match max_connections {
            Some(c) => seq!["--conns"@, dec_str_signed(c as int)],
            None => Seq::empty(),
        }) + (match max_payload {
            Some(p) => seq!["--data"@, dec_str_signed(p as int)],
            None => Seq::empty(),
        }),
        IssuerOp::AddExport { account, subject, is_service } => seq![
            "add"@,
            "export"@,
            "--name"@,
            subject@,
            "--subject"@,
            subject@,
            "--account"@,
            account@,
            "--data-dir"@,
            store,
        ] + (if is_service {
            seq!["--service"@]
        } else {
            Seq::empty()
        }),
        IssuerOp::AddImport { name, account, src_account, subject, local_subject, service } => seq![
            "add"@,
            "import"@,
            "--name"@,
            name@,
            "--src-account"@,
            src_account@,
            "--remote-subject"@,
            subject@,
            "--account"@,
            account@,
            "--data-dir"@,
            store,
        ] + (match local_subject {
            Some(ls) => seq!["--local-subject"@, ls@],
            None => Seq::empty(),
        }) + (if service {
            seq!["--service"@]
        } else {
            Seq::empty()
        }),
        IssuerOp::AddUser { account, name, allowed_subjects, denied_subjects, expiry } => seq![
            "add"@,
            "user"@,
            "--name"@,
            name@,
            "--account"@,
            account@,
            "--data-dir"@,
            store,
        ] + (if allowed_subjects@.len() == 0 {
            Seq::empty()
        } else {
            seq!["--allow-pubsub"@, join_with(views_of(allowed_subjects@), ","@)]
        }) + (if denied_subjects@.len() == 0 {
            Seq::empty()
        } else {
            seq!["--deny-pubsub"@, join_with(views_of(denied_subjects@), ","@)]
        }) + (match expiry {
            Some(e) => seq!["--expiry"@, date_part(e@)],
            None => Seq::empty(),
        }),
        IssuerOp::GenerateCreds { account, user_name, output_file } => seq![
            "generate"@,
            "creds"@,
            "--account"@,
            account@,
            "--name"@,
            user_name@,
            "--output-file"@,
            output_file@,
            "--data-dir"@,
            store,
        ],
    }
}

/// Renders the exact argument vector for one issuer operation.
#[verifier::rlimit(100)]
pub fn issuer_args(op: &IssuerOp, store_dir: &String) -> (r: Vec<String>)
    ensures
        views_of(r@) == spec_issuer_args(*op, store_dir@),
{
    let mut v: Vec<String> = Vec::new();
    match op {
        IssuerOp::InitOperator { name } => {
            v.push("init".to_owned());
            v.push("--name".to_owned());
            v.push(name.clone());
            v.push("--dir".to_owned());
            v.push(store_dir.clone());
            v.push("--data-dir".to_owned());
            v.push(store_dir.clone());
            proof {
                assert(views_of(v@) =~= spec_issuer_args(*op, store_dir@));
            }
        },
        IssuerOp::AddAccount { unique_name } => {
            v.push("add".to_owned());
            v.push("account".to_owned());
            v.push("--name".to_owned());
            v.push(unique_name.clone());
            v.push("--data-dir".to_owned());
            v.push(store_dir.clone());
            proof {
                assert(views_of(v@) =~= spec_issuer_args(*op, store_dir@));
            }
        },
        IssuerOp::EditAccountLimits { unique_name, max_connections, max_payload } => {
            v.push("edit".to_owned());
            v.push("account".to_owned());
            v.push("--name".to_owned());
            v.push(unique_name.clone());
            v.push("--data-dir".to_owned());
            v.push(store_dir.clone());
            match max_connections {
                Some(c) => {
                    v.push("--conns".to_owned());
                    v.push(i64_to_string(*c as i64));
                },
                None => {},
            }
            match max_payload {
                Some(p) => {
                    v.push("--data".to_owned());
                    v.push(i64_to_string(*p));
                },
                None => {},
            }
            proof {
                assert(views_of(v@) =~= spec_issuer_args(*op, store_dir@));
            }
        },
        IssuerOp::AddExport { account, subject, is_service } => {
            v.push("add".to_owned());
            v.push("export".to_owned());
            v.push("--name".to_owned());
            v.push(subject.clone());
            v.push("--subject".to_owned());
            v.push(subject.clone());
            v.push("--account".to_owned());
            v.push(account.clone());
            v.push("--data-dir".to_owned());
            v.push(store_dir.clone());
            if *is_service {
                v.push("--service".to_owned());
            }
            proof {
                assert(views_of(v@) =~= spec_issuer_args(*op, store_dir@));
            }
        },
        IssuerOp::AddImport { name, account, src_account, subject, local_subject, service } => {
            v.push("add".to_owned());
            v.push("import".to_owned());
            v.push("--name".to_owned());
            v.push(name.clone());
            v.push("--src-account".to_owned());
            v.push(src_account.clone());
            v.push("--remote-subject".to_owned());
            v.push(subject.clone());
            v.push("--account".to_owned());
            v.push(account.clone());
            v.push("--data-dir".to_owned());
            v.push(store_dir.clone());
            match local_subject {
                Some(ls) => {
                    v.push("--local-subject".to_owned());
                    v.push(ls.clone());
                },
                None => {},
            }
            if *service {
                v.push("--service".to_owned());
            }
            proof {
                assert(views_of(v@) =~= spec_issuer_args(*op, store_dir@));
            }
        },
        IssuerOp::AddUser { account, name, allowed_subjects, denied_subjects, expiry } => {
            v.push("add".to_owned());
            v.push("user".to_owned());
            v.push("--name".to_owned());
            v.push(name.clone());
            v.push("--account".to_owned());
            v.push(account.clone());
            v.push("--data-dir".to_owned());
            v.push(store_dir.clone());
            if allowed_subjects.len() > 0 {
                v.push("--allow-pubsub".to_owned());
                v.push(join_comma(allowed_subjects));
            }
            if denied_subjects.len() > 0 {
                v.push("--deny-pubsub".to_owned());
                v.push(join_comma(denied_subjects));
            }
            match expiry {
                Some(e) => {
                    v.push("--expiry".to_owned());
                    v.push(expiry_date_arg(e));
                },
                None => {},
            }
            proof {
                assert(views_of(v@) =~= spec_issuer_args(*op, store_dir@));
            }
        },
        IssuerOp::GenerateCreds { account, user_name, output_file } => {
            v.push("generate".to_owned());
            v.push("creds".to_owned());
            v.push("--account".to_owned());
            v.push(account.clone());
            v.push("--name".to_owned());
            v.push(user_name.clone());
            v.push("--output-file".to_owned());
            v.push(output_file.clone());
            v.push("--data-dir".to_owned());
            v.push(store_dir.clone());
            proof {
                assert(views_of(v@) =~= spec_issuer_args(*op, store_dir@));
            }
        },
    }
    v
}

} // verus!
