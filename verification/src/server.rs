use vstd::prelude::*;
use crate::config::{JetStreamConfig, RemoteConfig, ServerConfig, SubjectTransformConfig, TlsConfig};
use crate::strutil::{dec_str, dec_str_signed, push_i64, push_u64};
use crate::token::{extract_account_id, spec_subject_id};

verus! {

use vstd::string::StringExecFns;

/// The token stored for a name in an association list, first match wins.
pub open spec fn assoc_lookup(entries: Seq<(String, String)>, name: Seq<char>) -> Option<Seq<char>>
    decreases entries.len(),
{
    if entries.len() == 0 {
        None
    } else if entries[0].0@ == name {
        Some(entries[0].1@)
    } else {
        assoc_lookup(entries.drop_first(), name)
    }
}

proof fn lemma_assoc_lookup_skip(entries: Seq<(String, String)>, name: Seq<char>, i: int)
    requires
        0 <= i <= entries.len(),
        forall|t: int| 0 <= t < i ==> entries[t].0@ != name,
    ensures
        assoc_lookup(entries, name) == assoc_lookup(entries.skip(i), name),
    decreases i,
{
    if i == 0 {
        assert(entries.skip(0) =~= entries);
    } else {
        lemma_assoc_lookup_skip(entries, name, i - 1);
        assert(entries.skip(i - 1).drop_first() =~= entries.skip(i));
        assert(entries.skip(i - 1).len() > 0);
        assert(entries.skip(i - 1)[0] == entries[i - 1]);
    }
}

/// Finds the token stored for a name, scanning in declaration order.
pub fn find_assoc(entries: &Vec<(String, String)>, name: &String) -> (r: Option<String>)
    ensures
        match r {
            Some(jwt) => assoc_lookup(entries@, name@) == Some(jwt@),
            None => assoc_lookup(entries@, name@) is None,
        },
{
    let mut i: usize = 0;
    while i < entries.len()
        invariant
            i <= entries@.len(),
            forall|t: int| 0 <= t < i ==> entries@[t].0@ != name@,
        decreases entries@.len() - i,
    {
        if entries[i].0 == *name {
            proof {
                lemma_assoc_lookup_skip(entries@, name@, i as int);
                assert(entries@.skip(i as int)[0] == entries@[i as int]);
            }
            return Some(entries[i].1.clone());
        }
        i = i + 1;
    }
    proof {
        lemma_assoc_lookup_skip(entries@, name@, entries@.len() as int);
        assert(entries@.skip(entries@.len() as int) =~= Seq::<(String, String)>::empty());
    }
    None
}

/// The subject id a remote's account reference resolves to.
pub open spec fn spec_remote_account_id(entries: Seq<(String, String)>, name: Seq<char>) -> Seq<
    char,
> {
    match assoc_lookup(entries, name) {
        Some(jwt) => match spec_subject_id(jwt) {
            Some(id) => id,
            None => Seq::empty(),
        },
        None => Seq::empty(),
    }
}

/// A remote's account reference can be resolved to a subject id.
pub open spec fn remote_resolves(entries: Seq<(String, String)>, remote: RemoteConfig) -> bool {
    match assoc_lookup(entries, remote.account@) {
        Some(jwt) => spec_subject_id(jwt) is Some,
        None => false,
    }
}

pub open spec fn spec_js_open(js: JetStreamConfig) -> Seq<char> {
    "jetstream {\n    store_dir: \""@ + (match js.store_dir {
        Some(d) => d@,
        None => "jetstream"@,
    }) + "\"\n    domain: \""@ + (match js.domain {
        Some(d) => d@,
        None => "core"@,
    }) + "\"\n"@
}

pub open spec fn spec_js_memory(js: JetStreamConfig) -> Seq<char> {
    match js.max_memory {
        Some(m) => "    max_memory_store: "@ + dec_str_signed(m as int) + "\n"@,
        None => Seq::empty(),
    }
}

pub open spec fn spec_js_storage(js: JetStreamConfig) -> Seq<char> {
    match js.max_storage {
        Some(m) => "    max_file_store: "@ + dec_str_signed(m as int) + "\n"@,
        None => Seq::empty(),
    }
}

pub open spec fn spec_js_transform(js: JetStreamConfig) -> Seq<char> {
    match js.subject_transform {
        Some(tr) => "    subject_transform { src: \""@ + tr.src@ + "\", dest: \""@ + tr.dest@
            + "\" }\n"@,
        None => Seq::empty(),
    }
}

pub open spec fn spec_js_republish(js: JetStreamConfig) -> Seq<char> {
    if js.republish@.len() == 0 {
        Seq::empty()
    } else {
        "    republish = [\n"@ + spec_republish_items(js.republish@) + "    ]\n"@
    }
}

pub open spec fn spec_jetstream_block(js: JetStreamConfig) -> Seq<char> {
    if !js.enabled {
        Seq::empty()
    } else {
        spec_js_open(js) + spec_js_memory(js) + spec_js_storage(js) + spec_js_transform(js)
            + spec_js_republish(js) + "}\n\n"@
    }
}

pub open spec fn spec_republish_items(items: Seq<SubjectTransformConfig>) -> Seq<char>
    decreases items.len(),
{
    if items.len() == 0 {
        Seq::empty()
    } else {
        spec_republish_items(items.drop_last()) + "        { src: \""@ + items.last().src@
            + "\", dest: \""@ + items.last().dest@ + "\" },\n"@
    }
}

pub open spec fn spec_tls_block(tls: Option<TlsConfig>) -> Seq<char> {
    match tls {
        None => Seq::empty(),
        Some(t) => "tls {\n    cert_file: \""@ + t.cert_file@ + "\"\n    key_file: \""@
            + t.key_file@ + "\"\n"@ + (match t.ca_file {
            Some(ca) => "    ca_file: \""@ + ca@ + "\"\n"@,
            None => Seq::empty(),
        }) + "}\n\n"@,
    }
}

pub open spec fn spec_mapping_items(items: Seq<SubjectTransformConfig>) -> Seq<char>
    decreases items.len(),
{
    if items.len() == 0 {
        Seq::empty()
    } else {
        spec_mapping_items(items.drop_last()) + "    \""@ + items.last().src@ + "\": \""@
            + items.last().dest@ + "\",\n"@
    }
}

pub open spec fn spec_mappings_block(items: Seq<SubjectTransformConfig>) -> Seq<char> {
    if items.len() == 0 {
        Seq::empty()
    } else {
        "mappings: {\n"@ + spec_mapping_items(items) + "}\n\n"@
    }
}

pub open spec fn spec_leaf_port_block(port: Option<u16>) -> Seq<char> {
    match port {
        Some(p) => "leafnodes {\n    port: "@ + dec_str(p as nat) + "\n}\n\n"@,
        None => Seq::empty(),
    }
}

pub open spec fn spec_remote_item(
    remote: RemoteConfig,
    output_dir: Seq<char>,
    entries: Seq<(String, String)>,
) -> Seq<char> {
    "        { url: \""@ + remote.url@ + "\", account: \""@ + spec_remote_account_id(
        entries,
        remote.account@,
    ) + "\", credentials: \""@ + output_dir + "/"@ + remote.credentials@ + "\" },\n"@
}

pub open spec fn spec_remote_items(
    remotes: Seq<RemoteConfig>,
    output_dir: Seq<char>,
    entries: Seq<(String, String)>,
) -> Seq<char>
    decreases remotes.len(),
{
    if remotes.len() == 0 {
        Seq::empty()
    } else {
        spec_remote_items(remotes.drop_last(), output_dir, entries) + spec_remote_item(
            remotes.last(),
            output_dir,
            entries,
        )
    }
}

pub open spec fn spec_remotes_block(
    remotes: Seq<RemoteConfig>,
    output_dir: Seq<char>,
    entries: Seq<(String, String)>,
) -> Seq<char> {
    if remotes.len() == 0 {
        Seq::empty()
    } else {
        "leafnodes {\n    remotes = [\n"@ + spec_remote_items(remotes, output_dir, entries)
            + "    ]\n}\n\n"@
    }
}

pub open spec fn spec_preload_block(resolver_preload: Seq<char>) -> Seq<char> {
    if resolver_preload.len() == 0 {
        Seq::empty()
    } else {
        "resolver_preload: {\n"@ + resolver_preload + "\n}\n"@
    }
}

/// The whole configuration text of one server unit, byte for byte.
pub open spec fn spec_server_config(
    server: ServerConfig,
    operator_jwt: Seq<char>,
    system_account_id: Seq<char>,
    resolver_preload: Seq<char>,
    entries: Seq<(String, String)>,
) -> Seq<char> {
    "port: "@ + dec_str(server.port as nat) + "\nserver_name: \""@ + server.name@ + "\"\n\n"@
        + spec_jetstream_block(server.jetstream) + spec_tls_block(server.tls) + spec_mappings_block(
        server.mappings@,
    ) + spec_leaf_port_block(server.leafnodes.port) + spec_remotes_block(
        server.leafnodes.remotes@,
        server.output_dir@,
        entries,
    ) + "operator: \""@ + operator_jwt + "\"\nsystem_account: \""@ + system_account_id
        + "\"\nresolver: MEMORY\n"@ + spec_preload_block(resolver_preload)
}


fn append_js_open(out: &mut String, js: &JetStreamConfig)
    ensures
        final(out)@ == old(out)@ + spec_js_open(*js),
{
    out.append("jetstream {\n    store_dir: \"");
    match &js.store_dir {
        Some(d) => out.append(d.as_str()),
        None => out.append("jetstream"),
    }
    out.append("\"\n    domain: \"");
    match &js.domain {
        Some(d) => out.append(d.as_str()),
        None => out.append("core"),
    }
    out.append("\"\n");
    proof {
        assert(final(out)@ =~= old(out)@ + spec_js_open(*js));
    }
}

fn append_js_memory(out: &mut String, js: &JetStreamConfig)
    ensures
        final(out)@ == old(out)@ + spec_js_memory(*js),
{
    match js.max_memory {
        Some(m) => {
            out.append("    max_memory_store: ");
            push_i64(out, m);
            out.append("\n");
            proof {
                assert(final(out)@ =~= old(out)@ + spec_js_memory(*js));
            }
        },
        None => {},
    }
}

fn append_js_storage(out: &mut String, js: &JetStreamConfig)
    ensures
        final(out)@ == old(out)@ + spec_js_storage(*js),
{
    match js.max_storage {
        Some(m) => {
            out.append("    max_file_store: ");
            push_i64(out, m);
            out.append("\n");
            proof {
                assert(final(out)@ =~= old(out)@ + spec_js_storage(*js));
            }
        },
        None => {},
    }
}

fn append_js_transform(out: &mut String, js: &JetStreamConfig)
    ensures
        final(out)@ == old(out)@ + spec_js_transform(*js),
{
    match &js.subject_transform {
        Some(tr) => {
            out.append("    subject_transform { src: \"");
            out.append(tr.src.as_str());
            out.append("\", dest: \"");
            out.append(tr.dest.as_str());
            out.append("\" }\n");
            proof {
                assert(final(out)@ =~= old(out)@ + spec_js_transform(*js));
            }
        },
        None => {},
    }
}

fn append_js_republish(out: &mut String, js: &JetStreamConfig)
    ensures
        final(out)@ == old(out)@ + spec_js_republish(*js),
{
    if js.republish.len() > 0 {
        out.append("    republish = [\n");
        let ghost mid = out@;
        let items = &js.republish;
        let mut k: usize = 0;
        while k < items.len()
            invariant
                k <= items@.len(),
                out@ == mid + spec_republish_items(items@.take(k as int)),
            decreases items@.len() - k,
        {
            out.append("        { src: \"");
            out.append(items[k].src.as_str());
            out.append("\", dest: \"");
            out.append(items[k].dest.as_str());
            out.append("\" },\n");
            proof {
                assert(items@.take(k + 1).drop_last() =~= items@.take(k as int));
                assert(out@ =~= mid + spec_republish_items(items@.take(k + 1)));
            }
            k = k + 1;
        }
        proof {
            assert(items@.take(items@.len() as int) =~= items@);
        }
        out.append("    ]\n");
        proof {
            assert(final(out)@ =~= old(out)@ + spec_js_republish(*js));
        }
    }
}

#[verifier::rlimit(50)]
fn append_jetstream(out: &mut String, js: &JetStreamConfig)
    ensures
        final(out)@ == old(out)@ + spec_jetstream_block(*js),
{
    if js.enabled {
        append_js_open(out, js);
        append_js_memory(out, js);
        append_js_storage(out, js);
        append_js_transform(out, js);
        append_js_republish(out, js);
        out.append("}\n\n");
        proof {
            assert(final(out)@ =~= old(out)@ + spec_jetstream_block(*js));
        }
    }
}

#[verifier::rlimit(100)]
fn append_tls(out: &mut String, tls: &Option<TlsConfig>)
    ensures
        final(out)@ == old(out)@ + spec_tls_block(*tls),
{
    match tls {
        Some(t) => {
            out.append("tls {\n    cert_file: \"");
            out.append(t.cert_file.as_str());
            out.append("\"\n    key_file: \"");
            out.append(t.key_file.as_str());
            out.append("\"\n");
            match &t.ca_file {
                Some(ca) => {
                    out.append("    ca_file: \"");
                    out.append(ca.as_str());
                    out.append("\"\n");
                },
                None => {},
            }
            out.append("}\n\n");
            proof {
                assert(final(out)@ =~= old(out)@ + spec_tls_block(*tls));
            }
        },
        None => {},
    }
}

#[verifier::rlimit(100)]
fn append_mappings(out: &mut String, items: &Vec<SubjectTransformConfig>)
    ensures
        final(out)@ == old(out)@ + spec_mappings_block(items@),
{
    if items.len() > 0 {
        out.append("mappings: {\n");
        let ghost mid = out@;
        let mut k: usize = 0;
        while k < items.len()
            invariant
                k <= items@.len(),
                out@ == mid + spec_mapping_items(items@.take(k as int)),
            decreases items@.len() - k,
        {
            out.append("    \"");
            out.append(items[k].src.as_str());
            out.append("\": \"");
            out.append(items[k].dest.as_str());
            out.append("\",\n");
            proof {
                assert(items@.take(k + 1).drop_last() =~= items@.take(k as int));
                assert(out@ =~= mid + spec_mapping_items(items@.take(k + 1)));
            }
            k = k + 1;
        }
        proof {
            assert(items@.take(items@.len() as int) =~= items@);
        }
        out.append("}\n\n");
        proof {
            assert(final(out)@ =~= old(out)@ + spec_mappings_block(items@));
        }
    }
}

#[verifier::rlimit(100)]
fn append_remotes(
    out: &mut String,
    remotes: &Vec<RemoteConfig>,
    output_dir: &String,
    account_jwts: &Vec<(String, String)>,
)
    requires
        forall|t: int|
            0 <= t < remotes@.len() ==> remote_resolves(account_jwts@, #[trigger] remotes@[t]),
    ensures
        final(out)@ == old(out)@ + spec_remotes_block(remotes@, output_dir@, account_jwts@),
{
    if remotes.len() > 0 {
        out.append("leafnodes {\n    remotes = [\n");
        let ghost mid = out@;
        let mut k: usize = 0;
        while k < remotes.len()
            invariant
                k <= remotes@.len(),
                forall|t: int|
                    0 <= t < remotes@.len() ==> remote_resolves(
                        account_jwts@,
                        #[trigger] remotes@[t],
                    ),
                out@ == mid + spec_remote_items(
                    remotes@.take(k as int),
                    output_dir@,
                    account_jwts@,
                ),
            decreases remotes@.len() - k,
        {
            let jwt = match find_assoc(account_jwts, &remotes[k].account) {
                Some(jwt) => jwt,
                None => {
                    proof {
                        assert(remote_resolves(account_jwts@, remotes@[k as int]));
                        assert(false);
                    }
                    vstd::pervasive::unreached()
                },
            };
            let account_id = match extract_account_id(jwt.as_str()) {
                Ok(id) => id,
                Err(_) => {
                    proof {
                        assert(remote_resolves(account_jwts@, remotes@[k as int]));
                        assert(false);
                    }
                    vstd::pervasive::unreached()
                },
            };
            out.append("        { url: \"");
            out.append(remotes[k].url.as_str());
            out.append("\", account: \"");
            out.append(account_id.as_str());
            out.append("\", credentials: \"");
            out.append(output_dir.as_str());
            out.append("/");
            out.append(remotes[k].credentials.as_str());
            out.append("\" },\n");
            proof {
                assert(account_id@ == spec_remote_account_id(
                    account_jwts@,
                    remotes@[k as int].account@,
                ));
                assert(remotes@.take(k + 1).drop_last() =~= remotes@.take(k as int));
                assert(out@ =~= mid + spec_remote_items(
                    remotes@.take(k + 1),
                    output_dir@,
                    account_jwts@,
                ));
            }
            k = k + 1;
        }
        proof {
            assert(remotes@.take(remotes@.len() as int) =~= remotes@);
        }
        out.append("    ]\n}\n\n");
        proof {
            assert(final(out)@ =~= old(out)@ + spec_remotes_block(
                remotes@,
                output_dir@,
                account_jwts@,
            ));
        }
    }
}

/// Renders the final configuration text of one server unit. The text is a
/// pure function of the resolved inputs, so rendering the same model twice
/// yields byte-identical output; every remote\'s account reference is
/// resolved to its subject id and its credentials to the server-local copy.
pub fn generate_server_config(
    server: &ServerConfig,
    operator_jwt: &str,
    system_account_id: &str,
    resolver_preload: &str,
    account_jwts: &Vec<(String, String)>,
) -> (r: String)
    requires
        forall|t: int|
            0 <= t < server.leafnodes.remotes@.len() ==> remote_resolves(
                account_jwts@,
                #[trigger] server.leafnodes.remotes@[t],
            ),
    ensures
        r@ == spec_server_config(
            *server,
            operator_jwt@,
            system_account_id@,
            resolver_preload@,
            account_jwts@,
        ),
{
    let mut out = String::new();
    out.append("port: ");
    push_u64(&mut out, server.port as u64);
    out.append("\nserver_name: \"");
    out.append(server.name.as_str());
    out.append("\"\n\n");
    append_jetstream(&mut out, &server.jetstream);
    append_tls(&mut out, &server.tls);
    append_mappings(&mut out, &server.mappings);
    match server.leafnodes.port {
        Some(p) => {
            out.append("leafnodes {\n    port: ");
            push_u64(&mut out, p as u64);
            out.append("\n}\n\n");
        },
        None => {},
    }
    append_remotes(&mut out, &server.leafnodes.remotes, &server.output_dir, account_jwts);
    out.append("operator: \"");
    out.append(operator_jwt);
    out.append("\"\nsystem_account: \"");
    out.append(system_account_id);
    out.append("\"\nresolver: MEMORY\n");
    if !resolver_preload.is_empty() {
        out.append("resolver_preload: {\n");
        out.append(resolver_preload);
        out.append("\n}\n");
    }
    proof {
        assert(out@ =~= spec_server_config(
            *server,
            operator_jwt@,
            system_account_id@,
            resolver_preload@,
            account_jwts@,
        ));
    }
    out
}

/// Rendering the same resolved server model twice yields byte-identical
/// configuration text: the text is a pure function of the resolved inputs,
/// with no timestamps and no nondeterministic ordering.
pub proof fn lemma_render_deterministic(
    r1: Seq<char>,
    r2: Seq<char>,
    server: ServerConfig,
    operator_jwt: Seq<char>,
    system_account_id: Seq<char>,
    resolver_preload: Seq<char>,
    entries: Seq<(String, String)>,
)
    requires
        r1 == spec_server_config(server, operator_jwt, system_account_id, resolver_preload, entries),
        r2 == spec_server_config(server, operator_jwt, system_account_id, resolver_preload, entries),
    ensures
        r1 == r2,
{
}

} // verus!
