use vstd::prelude::*;
use crate::config::{AccountConfig, NatsConfig, ServerConfig};

verus! {

use vstd::string::{StrSliceExecFns, StringExecFns};

/// Relies on uuid's `Uuid::new_v4`, rendered in its canonical hyphenated
/// text form: a random discriminator. Nothing is promised of the value,
/// which may differ on every call; whether the names it produces are
/// distinct is checked afterwards by `validate_unique_names`.
#[verifier::external_body]
fn fresh_discriminator() -> (r: String) {
    uuid::Uuid::new_v4().to_string()
}

/// `name` is `base` with a dash and some discriminator appended.
pub open spec fn discriminated(base: Seq<char>, name: Seq<char>) -> bool {
    exists|d: Seq<char>| name == base + "-"@ + d
}

/// Appends a dash and a fresh random discriminator to the name.
fn discriminate(base: String) -> (r: String)
    ensures
        discriminated(base@, r@),
{
    let d = fresh_discriminator();
    let mut s = base;
    let ghost b = s@;
    s.append("-");
    s.append(d.as_str());
    proof {
        assert(s@ == b + "-"@ + d@);
    }
    s
}

/// The account came through normalization unchanged, except that an empty
/// `unique_name` was replaced by its label plus a discriminator.
pub open spec fn account_normalized(orig: AccountConfig, out: AccountConfig) -> bool {
    &&& out.name == orig.name
    &&& out.users == orig.users
    &&& out.is_system_account == orig.is_system_account
    &&& out.max_connections == orig.max_connections
    &&& out.max_payload == orig.max_payload
    &&& out.exports == orig.exports
    &&& out.imports == orig.imports
    &&& if orig.unique_name@.len() == 0 {
        discriminated(orig.name@, out.unique_name@)
    } else {
        out.unique_name == orig.unique_name
    }
}

pub open spec fn server_normalized(orig: ServerConfig, out: ServerConfig) -> bool {
    &&& out.name == orig.name
    &&& out.port == orig.port
    &&& out.jetstream == orig.jetstream
    &&& out.leafnodes == orig.leafnodes
    &&& out.output_dir == orig.output_dir
    &&& out.tls == orig.tls
    &&& out.mappings == orig.mappings
    &&& out.accounts@.len() == orig.accounts@.len()
    &&& forall|a: int|
        0 <= a < orig.accounts@.len() ==> account_normalized(
            orig.accounts@[a],
            #[trigger] out.accounts@[a],
        )
}

pub open spec fn config_normalized(orig: NatsConfig, out: NatsConfig) -> bool {
    &&& out.name == orig.name
    &&& out.operator.reuse_existing == orig.operator.reuse_existing
    &&& discriminated(orig.operator.name@, out.operator.name@)
    &&& out.servers@.len() == orig.servers@.len()
    &&& forall|s: int|
        0 <= s < orig.servers@.len() ==> server_normalized(
            orig.servers@[s],
            #[trigger] out.servers@[s],
        )
}

fn normalize_accounts(accounts: Vec<AccountConfig>) -> (r: Vec<AccountConfig>)
    ensures
        r@.len() == accounts@.len(),
        forall|a: int|
            0 <= a < accounts@.len() ==> account_normalized(accounts@[a], #[trigger] r@[a]),
{
    let ghost orig = accounts@;
    let mut rest = accounts;
    let mut out: Vec<AccountConfig> = Vec::new();
    while rest.len() > 0
        invariant
            out@.len() + rest@.len() == orig.len(),
            rest@ == orig.skip(out@.len() as int),
            forall|a: int| 0 <= a < out@.len() ==> account_normalized(orig[a], #[trigger] out@[a]),
        decreases rest@.len(),
    {
        let ghost k = out@.len() as int;
        let acc = rest.remove(0);
        proof {
            assert(acc == orig[k]);
            assert(rest@ =~= orig.skip(k + 1));
        }
        let AccountConfig {
            name,
            users,
            is_system_account,
            unique_name,
            max_connections,
            max_payload,
            exports,
            imports,
        } = acc;
        let new_unique = if unique_name.as_str().is_empty() {
            discriminate(name.clone())
        } else {
            unique_name
        };
        out.push(
            AccountConfig {
                name,
                users,
                is_system_account,
                unique_name: new_unique,
                max_connections,
                max_payload,
                exports,
                imports,
            },
        );
        proof {
            assert(account_normalized(orig[k], out@[k]));
        }
    }
    out
}

/// Normalizes a deployment descriptor: the operator's name is made unique
/// for this run by a random discriminator, and every account lacking an
/// explicit `unique_name` is assigned one from its label. Everything else
/// is kept as it stands. Whether the assigned names are in fact distinct is
/// validated separately, before any identity is created.
pub fn normalize_config(config: NatsConfig) -> (r: NatsConfig)
    ensures
        config_normalized(config, r),
{
    let NatsConfig { name, operator, servers } = config;
    let crate::config::OperatorConfig { name: op_name, reuse_existing } = operator;
    let new_operator = crate::config::OperatorConfig {
        name: discriminate(op_name),
        reuse_existing,
    };

    let ghost orig = servers@;
    let mut rest = servers;
    let mut out: Vec<ServerConfig> = Vec::new();
    while rest.len() > 0
        invariant
            out@.len() + rest@.len() == orig.len(),
            rest@ == orig.skip(out@.len() as int),
            forall|s: int| 0 <= s < out@.len() ==> server_normalized(orig[s], #[trigger] out@[s]),
        decreases rest@.len(),
    {
        let ghost k = out@.len() as int;
        let sv = rest.remove(0);
        proof {
            assert(sv == orig[k]);
            assert(rest@ =~= orig.skip(k + 1));
        }
        let ServerConfig {
            name: s_name,
            port,
            jetstream,
            leafnodes,
            accounts,
            output_dir,
            tls,
            mappings,
        } = sv;
        let new_accounts = normalize_accounts(accounts);
        out.push(
            ServerConfig {
                name: s_name,
                port,
                jetstream,
                leafnodes,
                accounts: new_accounts,
                output_dir,
                tls,
                mappings,
            },
        );
        proof {
            assert(server_normalized(orig[k], out@[k]));
        }
    }
    NatsConfig { name, operator: new_operator, servers: out }
}

} // verus!
