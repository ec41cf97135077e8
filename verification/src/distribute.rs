use vstd::prelude::*;
use crate::config::ServerConfig;
use crate::errors::ForgeError;
use crate::server::{assoc_lookup, find_assoc};

verus! {

use vstd::string::StringExecFns;

/// One replication instruction: write `content`, byte for byte, under
/// `file_name` in the output location of server `server_index`.
#[derive(Debug, Clone, PartialEq, Eq)]
pub struct ArtifactCopy {
    pub server_index: usize,
    pub file_name: String,
    pub content: String,
}

/// The plan holds an instruction putting exactly this content under this
/// file name at this server.
pub open spec fn copy_present(
    plan: Seq<ArtifactCopy>,
    s: int,
    file_name: Seq<char>,
    content: Seq<char>,
) -> bool {
    exists|p: int|
        0 <= p < plan.len() && (#[trigger] plan[p]).server_index == s && plan[p].file_name@
            == file_name && plan[p].content@ == content
}

/// Plans account token replication: every server unit receives a copy of
/// every account's token, under `<name>.jwt`, so any server can validate
/// any account of the deployment. Every planned copy carries exactly the
/// produced token bytes.
pub fn plan_jwt_replication(
    servers: &Vec<ServerConfig>,
    account_jwts: &Vec<(String, String)>,
) -> (plan: Vec<ArtifactCopy>)
    ensures
        plan@.len() == servers@.len() * account_jwts@.len(),
        forall|s: int, k: int|
            0 <= s < servers@.len() && 0 <= k < account_jwts@.len() ==> #[trigger] copy_present(
                plan@,
                s,
                account_jwts@[k].0@ + ".jwt"@,
                account_jwts@[k].1@,
            ),
        forall|p: int|
            0 <= p < plan@.len() ==> (#[trigger] plan@[p]).server_index < servers@.len() && exists|
                k: int,
            |
                0 <= k < account_jwts@.len() && plan@[p].file_name@ == account_jwts@[k].0@
                    + ".jwt"@ && plan@[p].content@ == account_jwts@[k].1@,
{
    let mut plan: Vec<ArtifactCopy> = Vec::new();
    let mut s: usize = 0;
    while s < servers.len()
        invariant
            s <= servers@.len(),
            plan@.len() == s * account_jwts@.len(),
            forall|s2: int, k: int|
                0 <= s2 < s && 0 <= k < account_jwts@.len() ==> #[trigger] copy_present(
                    plan@,
                    s2,
                    account_jwts@[k].0@ + ".jwt"@,
                    account_jwts@[k].1@,
                ),
            forall|p: int|
                0 <= p < plan@.len() ==> (#[trigger] plan@[p]).server_index < servers@.len()
                    && exists|k: int|
                    0 <= k < account_jwts@.len() && plan@[p].file_name@ == account_jwts@[k].0@
                        + ".jwt"@ && plan@[p].content@ == account_jwts@[k].1@,
        decreases servers@.len() - s,
    {
        let mut k: usize = 0;
        while k < account_jwts.len()
            invariant
                s < servers@.len(),
                k <= account_jwts@.len(),
                plan@.len() == s * account_jwts@.len() + k,
                forall|s2: int, k2: int|
                    0 <= s2 < s && 0 <= k2 < account_jwts@.len() ==> #[trigger] copy_present(
                        plan@,
                        s2,
                        account_jwts@[k2].0@ + ".jwt"@,
                        account_jwts@[k2].1@,
                    ),
                forall|k2: int|
                    0 <= k2 < k ==> #[trigger] copy_present(
                        plan@,
                        s as int,
                        account_jwts@[k2].0@ + ".jwt"@,
                        account_jwts@[k2].1@,
                    ),
                forall|p: int|
                    0 <= p < plan@.len() ==> (#[trigger] plan@[p]).server_index < servers@.len()
                        && exists|k2: int|
                        0 <= k2 < account_jwts@.len() && plan@[p].file_name@
                            == account_jwts@[k2].0@ + ".jwt"@ && plan@[p].content@
                            == account_jwts@[k2].1@,
            decreases account_jwts@.len() - k,
        {
            let mut file_name = account_jwts[k].0.clone();
            file_name.append(".jwt");
            let ghost pre = plan@;
            plan.push(
                ArtifactCopy {
                    server_index: s,
                    file_name,
                    content: account_jwts[k].1.clone(),
                },
            );
            proof {
                assert(plan@[plan@.len() - 1].server_index == s as int && plan@[plan@.len()
                    - 1].file_name@ == account_jwts@[k as int].0@ + ".jwt"@ && plan@[plan@.len()
                    - 1].content@ == account_jwts@[k as int].1@);
                assert forall|s2: int, k2: int|
                    0 <= s2 < s && 0 <= k2 < account_jwts@.len() implies #[trigger] copy_present(
                    plan@,
                    s2,
                    account_jwts@[k2].0@ + ".jwt"@,
                    account_jwts@[k2].1@,
                ) by {
                    assert(copy_present(pre, s2, account_jwts@[k2].0@ + ".jwt"@, account_jwts@[k2].1@));
                    let p = choose|p: int|
                        0 <= p < pre.len() && (#[trigger] pre[p]).server_index == s2
                            && pre[p].file_name@ == account_jwts@[k2].0@ + ".jwt"@
                            && pre[p].content@ == account_jwts@[k2].1@;
                    assert(plan@[p] == pre[p]);
                }
                assert forall|k2: int| 0 <= k2 < k + 1 implies #[trigger] copy_present(
                    plan@,
                    s as int,
                    account_jwts@[k2].0@ + ".jwt"@,
                    account_jwts@[k2].1@,
                ) by {
                    if k2 < k {
                        assert(copy_present(
                            pre,
                            s as int,
                            account_jwts@[k2].0@ + ".jwt"@,
                            account_jwts@[k2].1@,
                        ));
                        let p = choose|p: int|
                            0 <= p < pre.len() && (#[trigger] pre[p]).server_index == s as int
                                && pre[p].file_name@ == account_jwts@[k2].0@ + ".jwt"@
                                && pre[p].content@ == account_jwts@[k2].1@;
                        assert(plan@[p] == pre[p]);
                    }
                }
            }
            k = k + 1;
        }
        proof {
            assert((s as int + 1) * account_jwts@.len() == s as int * account_jwts@.len()
                + account_jwts@.len()) by (nonlinear_arith);
        }
        s = s + 1;
    }
    plan
}

/// The planned copy answers to a leafnode remote of its server: the file
/// name is that remote's credential reference and the content is exactly
/// the produced bundle of that name.
pub open spec fn copy_justified(
    copy: ArtifactCopy,
    servers: Seq<ServerConfig>,
    produced: Seq<(String, String)>,
) -> bool {
    &&& copy.server_index < servers.len()
    &&& exists|t: int|
        0 <= t < servers[copy.server_index as int].leafnodes.remotes@.len()
            && (#[trigger] servers[copy.server_index as int].leafnodes.remotes@[t]).credentials@
            == copy.file_name@
    &&& Some(copy.content@) == assoc_lookup(produced, copy.file_name@)
}

/// Plans credential distribution: for each leafnode remote of each server,
/// the produced bundle with the referenced file name is copied, byte for
/// byte, into that server's output location. Succeeds exactly when every
/// referenced bundle was produced somewhere; fails with `MissingCredential`
/// naming a file name no bundle carries.
pub fn plan_credential_distribution(
    servers: &Vec<ServerConfig>,
    produced: &Vec<(String, String)>,
) -> (r: Result<Vec<ArtifactCopy>, ForgeError>)
    ensures
        match r {
            Ok(plan) => (forall|s: int, t: int|
                0 <= s < servers@.len() && 0 <= t < servers@[s].leafnodes.remotes@.len()
                    ==> assoc_lookup(
                    produced@,
                    (#[trigger] servers@[s].leafnodes.remotes@[t]).credentials@,
                ) is Some && copy_present(
                    plan@,
                    s,
                    servers@[s].leafnodes.remotes@[t].credentials@,
                    assoc_lookup(
                        produced@,
                        servers@[s].leafnodes.remotes@[t].credentials@,
                    )->Some_0,
                )) && (forall|p: int|
                0 <= p < plan@.len() ==> copy_justified(plan@[p], servers@, produced@)),
            Err(e) => e matches ForgeError::MissingCredential { remote } && exists|s: int, t: int|
                0 <= s < servers@.len() && 0 <= t < servers@[s].leafnodes.remotes@.len()
                    && (#[trigger] servers@[s].leafnodes.remotes@[t]).credentials@ == remote@
                    && assoc_lookup(produced@, remote@) is None,
        },
{
    let mut plan: Vec<ArtifactCopy> = Vec::new();
    let mut s: usize = 0;
    while s < servers.len()
        invariant
            s <= servers@.len(),
            forall|s2: int, t: int|
                0 <= s2 < s && 0 <= t < servers@[s2].leafnodes.remotes@.len() ==> assoc_lookup(
                    produced@,
                    (#[trigger] servers@[s2].leafnodes.remotes@[t]).credentials@,
                ) is Some && copy_present(
                    plan@,
                    s2,
                    servers@[s2].leafnodes.remotes@[t].credentials@,
                    assoc_lookup(produced@, servers@[s2].leafnodes.remotes@[t].credentials@)->Some_0,
                ),
            forall|p: int| 0 <= p < plan@.len() ==> copy_justified(#[trigger] plan@[p], servers@, produced@),
        decreases servers@.len() - s,
    {
        let remotes = &servers[s].leafnodes.remotes;
        let mut t: usize = 0;
        while t < remotes.len()
            invariant
                s < servers@.len(),
                t <= remotes@.len(),
                remotes@ == servers@[s as int].leafnodes.remotes@,
                forall|s2: int, t2: int|
                    0 <= s2 < s && 0 <= t2 < servers@[s2].leafnodes.remotes@.len() ==> assoc_lookup(
                        produced@,
                        (#[trigger] servers@[s2].leafnodes.remotes@[t2]).credentials@,
                    ) is Some && copy_present(
                        plan@,
                        s2,
                        servers@[s2].leafnodes.remotes@[t2].credentials@,
                        assoc_lookup(
                            produced@,
                            servers@[s2].leafnodes.remotes@[t2].credentials@,
                        )->Some_0,
                    ),
                forall|t2: int|
                    0 <= t2 < t ==> assoc_lookup(
                        produced@,
                        (#[trigger] remotes@[t2]).credentials@,
                    ) is Some && copy_present(
                        plan@,
                        s as int,
                        remotes@[t2].credentials@,
                        assoc_lookup(produced@, remotes@[t2].credentials@)->Some_0,
                    ),
                forall|p: int| 0 <= p < plan@.len() ==> copy_justified(#[trigger] plan@[p], servers@, produced@),
            decreases remotes@.len() - t,
        {
            match find_assoc(produced, &remotes[t].credentials) {
                None => {
                    return Err(ForgeError::MissingCredential {
                        remote: remotes[t].credentials.clone(),
                    });
                },
                Some(content) => {
                    let ghost pre = plan@;
                    plan.push(
                        ArtifactCopy {
                            server_index: s,
                            file_name: remotes[t].credentials.clone(),
                            content,
                        },
                    );
                    proof {
                        assert(plan@[plan@.len() - 1].server_index == s as int);
                        assert(copy_justified(plan@[plan@.len() - 1], servers@, produced@)) by {
                            assert((servers@[s as int].leafnodes.remotes@[t as int]).credentials@
                                == plan@[plan@.len() - 1].file_name@);
                        }
                        assert forall|p: int| 0 <= p < plan@.len() implies copy_justified(
                            #[trigger] plan@[p],
                            servers@,
                            produced@,
                        ) by {
                            if p < pre.len() {
                                assert(plan@[p] == pre[p]);
                                assert(copy_justified(pre[p], servers@, produced@));
                            }
                        }
                        assert forall|s2: int, t2: int|
                            0 <= s2 < s && 0 <= t2 < servers@[s2].leafnodes.remotes@.len() implies
                            assoc_lookup(
                            produced@,
                            (#[trigger] servers@[s2].leafnodes.remotes@[t2]).credentials@,
                        ) is Some && copy_present(
                            plan@,
                            s2,
                            servers@[s2].leafnodes.remotes@[t2].credentials@,
                            assoc_lookup(
                                produced@,
                                servers@[s2].leafnodes.remotes@[t2].credentials@,
                            )->Some_0,
                        ) by {
                            let cred = servers@[s2].leafnodes.remotes@[t2].credentials@;
                            assert(copy_present(pre, s2, cred, assoc_lookup(produced@, cred)->Some_0));
                            let p = choose|p: int|
                                0 <= p < pre.len() && (#[trigger] pre[p]).server_index == s2
                                    && pre[p].file_name@ == cred && pre[p].content@ == assoc_lookup(
                                    produced@,
                                    cred,
                                )->Some_0;
                            assert(plan@[p] == pre[p]);
                        }
                        assert forall|t2: int| 0 <= t2 < t + 1 implies assoc_lookup(
                            produced@,
                            (#[trigger] remotes@[t2]).credentials@,
                        ) is Some && copy_present(
                            plan@,
                            s as int,
                            remotes@[t2].credentials@,
                            assoc_lookup(produced@, remotes@[t2].credentials@)->Some_0,
                        ) by {
                            let cred = remotes@[t2].credentials@;
                            if t2 < t {
                                assert(copy_present(
                                    pre,
                                    s as int,
                                    cred,
                                    assoc_lookup(produced@, cred)->Some_0,
                                ));
                                let p = choose|p: int|
                                    0 <= p < pre.len() && (#[trigger] pre[p]).server_index
                                        == s as int && pre[p].file_name@ == cred
                                        && pre[p].content@ == assoc_lookup(produced@, cred)->Some_0;
                                assert(plan@[p] == pre[p]);
                            }
                        }
                    }
                },
            }
            t = t + 1;
        }
        s = s + 1;
    }
    Ok(plan)
}

} // verus!
