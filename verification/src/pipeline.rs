use vstd::prelude::*;
use crate::config::ServerConfig;
use crate::errors::ForgeError;
use crate::server::{
    generate_server_config, find_assoc, assoc_lookup, remote_resolves, spec_server_config,
};
use crate::token::{extract_account_id, spec_subject_id};

verus! {

use vstd::string::StringExecFns;

/// The views of a list of (name or id, token) pairs.
pub open spec fn pair_views(items: Seq<(String, String)>) -> Seq<(Seq<char>, Seq<char>)> {
    items.map_values(|e: (String, String)| (e.0@, e.1@))
}

/// The subject id a token embeds, or nothing where it embeds none.
pub open spec fn subject_id_or_empty(jwt: Seq<char>) -> Seq<char> {
    match spec_subject_id(jwt) {
        Some(id) => id,
        None => Seq::empty(),
    }
}

/// Every produced account token embeds a readable subject id.
pub open spec fn all_jwts_extractable(account_jwts: Seq<(String, String)>) -> bool {
    forall|i: int|
        0 <= i < account_jwts.len() ==> spec_subject_id(#[trigger] account_jwts[i].1@) is Some
}

/// One resolver preload entry per known account: the token's own subject id
/// as the key, the token as the value.
pub open spec fn spec_preload_items(account_jwts: Seq<(String, String)>) -> Seq<
    (Seq<char>, Seq<char>),
> {
    account_jwts.map_values(|e: (String, String)| (subject_id_or_empty(e.1@), e.1@))
}

/// Some entry already carries this subject id as its key.
pub open spec fn preload_contains_id(items: Seq<(Seq<char>, Seq<char>)>, id: Seq<char>) -> bool {
    exists|i: int| 0 <= i < items.len() && items[i].0 == id
}

/// The full preload map: every known account, and the deployment's default
/// system account appended when no account already resolves to it.
pub open spec fn spec_full_preload_items(
    account_jwts: Seq<(String, String)>,
    default_sys_id: Seq<char>,
    default_sys_jwt: Seq<char>,
) -> Seq<(Seq<char>, Seq<char>)> {
    let base = spec_preload_items(account_jwts);
    if preload_contains_id(base, default_sys_id) {
        base
    } else {
        base.push((default_sys_id, default_sys_jwt))
    }
}

pub open spec fn spec_preload_line(id: Seq<char>, jwt: Seq<char>) -> Seq<char> {
    "    "@ + id + ": \""@ + jwt + "\""@
}

/// The preload map rendered as text: one line per entry, newline-separated.
pub open spec fn spec_preload_text(items: Seq<(Seq<char>, Seq<char>)>) -> Seq<char>
    decreases items.len(),
{
    if items.len() == 0 {
        Seq::empty()
    } else if items.len() == 1 {
        spec_preload_line(items[0].0, items[0].1)
    } else {
        spec_preload_text(items.drop_last()) + "\n"@ + spec_preload_line(
            items.last().0,
            items.last().1,
        )
    }
}

/// Builds the resolver preload for a deployment: one entry per account (key:
/// the subject id embedded in its token), plus the default system account
/// when no account already carries its id. Returns the entries and their
/// rendered text. Fails exactly when some account token embeds no readable
/// subject id.
pub fn build_resolver_preload(
    account_jwts: &Vec<(String, String)>,
    default_sys_id: &String,
    default_sys_jwt: &String,
) -> (r: Result<(Vec<(String, String)>, String), ForgeError>)
    ensures
        match r {
            Ok(out) => {
                &&& all_jwts_extractable(account_jwts@)
                &&& pair_views(out.0@) == spec_full_preload_items(
                    account_jwts@,
                    default_sys_id@,
                    default_sys_jwt@,
                )
                &&& out.1@ == spec_preload_text(
                    spec_full_preload_items(account_jwts@, default_sys_id@, default_sys_jwt@),
                )
            },
            Err(e) => !all_jwts_extractable(account_jwts@) && (e matches ForgeError::MalformedToken
                { .. } || e is ClaimDecodeError || e is MissingSubjectClaim),
        },
{
    let mut entries: Vec<(String, String)> = Vec::new();
    let mut i: usize = 0;
    while i < account_jwts.len()
        invariant
            i <= account_jwts@.len(),
            entries@.len() == i,
            forall|t: int|
                0 <= t < i ==> spec_subject_id(#[trigger] account_jwts@[t].1@) is Some,
            forall|t: int|
                0 <= t < i ==> (#[trigger] entries@[t]).0@ == subject_id_or_empty(
                    account_jwts@[t].1@,
                ) && entries@[t].1@ == account_jwts@[t].1@,
        decreases account_jwts@.len() - i,
    {
        let id = match extract_account_id(account_jwts[i].1.as_str()) {
            Ok(id) => id,
            Err(e) => {
                proof {
                    assert(spec_subject_id(account_jwts@[i as int].1@) is None);
                }
                return Err(e);
            },
        };
        entries.push((id, account_jwts[i].1.clone()));
        i = i + 1;
    }

    let mut has_default = false;
    let mut k: usize = 0;
    while k < entries.len()
        invariant
            k <= entries@.len(),
            has_default == preload_contains_id(pair_views(entries@).take(k as int), default_sys_id@),
        decreases entries@.len() - k,
    {
        if !has_default && entries[k].0 == *default_sys_id {
            has_default = true;
            proof {
                assert(pair_views(entries@).take(k + 1)[k as int].0 == default_sys_id@);
            }
        } else {
            proof {
                if preload_contains_id(pair_views(entries@).take(k + 1), default_sys_id@) {
                    let t = choose|t: int|
                        0 <= t < k + 1 && (#[trigger] pair_views(entries@).take(k + 1)[t]).0
                            == default_sys_id@;
                    if t < k {
                        assert(pair_views(entries@).take(k as int)[t].0 == default_sys_id@);
                    }
                }
            }
        }
        k = k + 1;
    }
    proof {
        assert(pair_views(entries@).take(entries@.len() as int) =~= pair_views(entries@));
        assert(pair_views(entries@) =~= spec_preload_items(account_jwts@));
    }
    if !has_default {
        entries.push((default_sys_id.clone(), default_sys_jwt.clone()));
        proof {
            assert(pair_views(entries@) =~= spec_full_preload_items(
                account_jwts@,
                default_sys_id@,
                default_sys_jwt@,
            ));
        }
    } else {
        proof {
            assert(pair_views(entries@) =~= spec_full_preload_items(
                account_jwts@,
                default_sys_id@,
                default_sys_jwt@,
            ));
        }
    }

    let mut text = String::new();
    let mut t: usize = 0;
    while t < entries.len()
        invariant
            t <= entries@.len(),
            text@ == spec_preload_text(pair_views(entries@).take(t as int)),
        decreases entries@.len() - t,
    {
        if t > 0 {
            text.append("\n");
        }
        text.append("    ");
        text.append(entries[t].0.as_str());
        text.append(": \"");
        text.append(entries[t].1.as_str());
        text.append("\"");
        proof {
            assert(pair_views(entries@).take(t + 1).drop_last() =~= pair_views(entries@).take(
                t as int,
            ));
            assert(text@ =~= spec_preload_text(pair_views(entries@).take(t + 1)));
        }
        t = t + 1;
    }
    proof {
        assert(pair_views(entries@).take(entries@.len() as int) =~= pair_views(entries@));
    }
    Ok((entries, text))
}

/// For every account, the subject id that extraction reads from its token
/// is exactly the key the resolver preload map carries for that account —
/// on every server, since the preload map is built once from the produced
/// tokens alone.
pub proof fn lemma_preload_key_matches_extraction(
    account_jwts: Seq<(String, String)>,
    default_sys_id: Seq<char>,
    default_sys_jwt: Seq<char>,
    k: int,
)
    requires
        0 <= k < account_jwts.len(),
    ensures
        spec_full_preload_items(account_jwts, default_sys_id, default_sys_jwt)[k].0
            == subject_id_or_empty(account_jwts[k].1@),
        spec_full_preload_items(account_jwts, default_sys_id, default_sys_jwt)[k].1
            == account_jwts[k].1@,
{
    let base = spec_preload_items(account_jwts);
    assert(base[k] == (subject_id_or_empty(account_jwts[k].1@), account_jwts[k].1@));
    if !preload_contains_id(base, default_sys_id) {
        assert(spec_full_preload_items(account_jwts, default_sys_id, default_sys_jwt)[k]
            == base.push((default_sys_id, default_sys_jwt))[k]);
    }
}

/// The server designates a system account of its own: an account labelled
/// `SYS` and marked as the system account.
pub open spec fn has_explicit_sys(server: ServerConfig) -> bool {
    exists|a: int|
        0 <= a < server.accounts@.len() && server.accounts@[a].name@ == "SYS"@
            && server.accounts@[a].is_system_account
}

/// The subject id a server's `system_account` directive resolves to: the id
/// embedded in the produced `SYS` token when the server designates one, the
/// deployment-wide default otherwise. `None` when the designated token
/// embeds no readable id.
pub open spec fn spec_system_account_id(
    server: ServerConfig,
    account_jwts: Seq<(String, String)>,
    default_sys_id: Seq<char>,
) -> Option<Seq<char>> {
    if has_explicit_sys(server) {
        match assoc_lookup(account_jwts, "SYS"@) {
            Some(jwt) => spec_subject_id(jwt),
            None => Some(default_sys_id),
        }
    } else {
        Some(default_sys_id)
    }
}

/// Resolves the system-account subject id for one server.
pub fn system_account_id_for(
    server: &ServerConfig,
    account_jwts: &Vec<(String, String)>,
    default_sys_id: &String,
) -> (r: Result<String, ForgeError>)
    ensures
        match r {
            Ok(id) => Some(id@) == spec_system_account_id(
                *server,
                account_jwts@,
                default_sys_id@,
            ),
            Err(e) => spec_system_account_id(*server, account_jwts@, default_sys_id@) is None && (
            e matches ForgeError::MalformedToken { .. } || e is ClaimDecodeError
                || e is MissingSubjectClaim),
        },
{
    let sys_label = String::from_str("SYS");
    let mut explicit = false;
    let mut a: usize = 0;
    while a < server.accounts.len()
        invariant
            a <= server.accounts@.len(),
            sys_label@ == "SYS"@,
            explicit == exists|a2: int|
                0 <= a2 < a && server.accounts@[a2].name@ == "SYS"@
                    && server.accounts@[a2].is_system_account,
        decreases server.accounts@.len() - a,
    {
        if !explicit && server.accounts[a].is_system_account && server.accounts[a].name
            == sys_label {
            explicit = true;
            proof {
                assert(server.accounts@[a as int].name@ == "SYS"@
                    && server.accounts@[a as int].is_system_account);
            }
        } else {
            proof {
                if exists|a2: int|
                    0 <= a2 < a + 1 && server.accounts@[a2].name@ == "SYS"@
                        && server.accounts@[a2].is_system_account {
                    let a2 = choose|a2: int|
                        0 <= a2 < a + 1 && server.accounts@[a2].name@ == "SYS"@
                            && server.accounts@[a2].is_system_account;
                    if a2 < a {
                        assert(explicit);
                    }
                }
            }
        }
        a = a + 1;
    }
    proof {
        assert(explicit == has_explicit_sys(*server));
    }

    if explicit {
        match find_assoc(account_jwts, &sys_label) {
            Some(jwt) => match extract_account_id(jwt.as_str()) {
                Ok(id) => Ok(id),
                Err(e) => Err(e),
            },
            None => Ok(default_sys_id.clone()),
        }
    } else {
        Ok(default_sys_id.clone())
    }
}

/// Synthesizes the configuration text of one server against already
/// resolved inputs: checks that every leafnode remote references a produced
/// account token with a readable subject id, then renders. Success is owed
/// exactly when every remote resolves.
pub fn synthesize_server_config(
    server: &ServerConfig,
    operator_jwt: &String,
    system_account_id: &String,
    preload_text: &String,
    account_jwts: &Vec<(String, String)>,
) -> (r: Result<String, ForgeError>)
    ensures
        match r {
            Ok(text) => (forall|t: int|
                0 <= t < server.leafnodes.remotes@.len() ==> remote_resolves(
                    account_jwts@,
                    #[trigger] server.leafnodes.remotes@[t],
                )) && text@ == spec_server_config(
                *server,
                operator_jwt@,
                system_account_id@,
                preload_text@,
                account_jwts@,
            ),
            Err(e) => (exists|t: int|
                0 <= t < server.leafnodes.remotes@.len() && !remote_resolves(
                    account_jwts@,
                    #[trigger] server.leafnodes.remotes@[t],
                )) && (match e {
                ForgeError::UnknownRemoteAccount { server: sn, account } => sn@ == server.name@
                    && assoc_lookup(account_jwts@, account@) is None,
                ForgeError::MalformedToken { .. } => true,
                ForgeError::ClaimDecodeError => true,
                ForgeError::MissingSubjectClaim => true,
                _ => false,
            }),
        },
{
    let remotes = &server.leafnodes.remotes;
    let mut t: usize = 0;
    while t < remotes.len()
        invariant
            t <= remotes@.len(),
            remotes@ == server.leafnodes.remotes@,
            forall|t2: int|
                0 <= t2 < t ==> remote_resolves(account_jwts@, #[trigger] remotes@[t2]),
        decreases remotes@.len() - t,
    {
        match find_assoc(account_jwts, &remotes[t].account) {
            None => {
                return Err(ForgeError::UnknownRemoteAccount {
                    server: server.name.clone(),
                    account: remotes[t].account.clone(),
                });
            },
            Some(jwt) => match extract_account_id(jwt.as_str()) {
                Ok(_) => {},
                Err(e) => {
                    return Err(e);
                },
            },
        }
        t = t + 1;
    }
    Ok(
        generate_server_config(
            server,
            operator_jwt.as_str(),
            system_account_id.as_str(),
            preload_text.as_str(),
            account_jwts,
        ),
    )
}

} // verus!
