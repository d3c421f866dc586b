//! Which servers a configuration may hold, and which of them an order means.

use vstd::prelude::*;
use crate::config::{
    chosen, enabled_models, lemma_position_of, position_of, selected, server_fault, valid_servers,
    ConfigFault, ServerModel, ServerSelection,
};
use crate::server_manage::stands_first;
use crate::text::{contains_text, is_blank, words_of};

verus! {

/// The server can be in a configuration, as far as it goes for itself: its id is made of
/// letters, digits, hyphens and underscores and holds no token, its name and its token are not
/// blank, and a cron expression of its timer has five words.
pub open spec fn stands_for_itself(s: ServerModel) -> bool {
    &&& s.id.len() > 0
    &&& forall|i: int|
        0 <= i < s.id.len() ==> ('0' <= #[trigger] s.id[i] <= '9' || 'a' <= s.id[i] <= 'z' || 'A'
            <= s.id[i] <= 'Z' || s.id[i] == '-' || s.id[i] == '_')
    &&& !is_blank(s.name)
    &&& !is_blank(s.token)
    &&& !contains_text(s.id, s.token)
    &&& s.timer matches Some(t) ==> (t.cron matches Some(cron) ==> words_of(cron).len() == 5)
}

/// Servers are valid exactly where each can stand for itself and no two have one id.
pub proof fn valid_servers_are_these(servers: Seq<ServerModel>)
    ensures
        valid_servers(servers) <==> {
            &&& forall|i: int| 0 <= i < servers.len() ==> stands_for_itself(#[trigger] servers[i])
            &&& forall|i: int, j: int|
                0 <= i < servers.len() && 0 <= j < servers.len() && i != j ==> (
                #[trigger] servers[i]).id != (#[trigger] servers[j]).id
        },
{
    if valid_servers(servers) {
        assert forall|i: int| 0 <= i < servers.len() implies stands_for_itself(
            #[trigger] servers[i],
        ) by {
            assert(crate::config::valid_server(servers[i]));
            assert forall|k: int| 0 <= k < servers[i].id.len() implies ('0'
                <= #[trigger] servers[i].id[k] <= '9' || 'a' <= servers[i].id[k] <= 'z' || 'A'
                <= servers[i].id[k] <= 'Z' || servers[i].id[k] == '-' || servers[i].id[k] == '_') by {
                assert(crate::config::is_id_char(servers[i].id[k]));
            }
        }
        assert forall|i: int, j: int|
            0 <= i < servers.len() && 0 <= j < servers.len() && i != j implies (
        #[trigger] servers[i]).id != (#[trigger] servers[j]).id by {
            if i < j {
                assert(servers[i].id != servers[j].id);
            } else {
                assert(servers[j].id != servers[i].id);
            }
        }
    }
    if forall|i: int| 0 <= i < servers.len() ==> stands_for_itself(#[trigger] servers[i]) {
        assert forall|i: int| 0 <= i < servers.len() implies crate::config::valid_server(
            #[trigger] servers[i],
        ) by {
            assert(stands_for_itself(servers[i]));
            assert forall|k: int| 0 <= k < servers[i].id.len() implies crate::config::is_id_char(
                #[trigger] servers[i].id[k],
            ) by {}
        }
    }
}

/// A server is told to have the fault that it has: an empty id, another character in it, a
/// blank name, a blank token, a token within the id, a cron expression without five words, or
/// an id that an earlier one has.
pub proof fn faults_are_told_apart(servers: Seq<ServerModel>, i: int)
    requires
        0 <= i < servers.len(),
    ensures
        ({
            let s = servers[i];
            match server_fault(servers, i) {
                Some(ConfigFault::ServerIdEmpty) => s.id.len() == 0,
                Some(ConfigFault::ServerIdIllegal(id)) => id == s.id && s.id.len() > 0 && exists|
                    k: int,
                |
                    0 <= k < s.id.len() && !('0' <= #[trigger] s.id[k] <= '9' || 'a' <= s.id[k]
                        <= 'z' || 'A' <= s.id[k] <= 'Z' || s.id[k] == '-' || s.id[k] == '_'),
                Some(ConfigFault::ServerNameEmpty(id)) => id == s.id && is_blank(s.name),
                Some(ConfigFault::ServerTokenEmpty(id)) => id == s.id && is_blank(s.token),
                Some(ConfigFault::ServerIdHoldsToken(id)) => id == s.id && contains_text(
                    s.id,
                    s.token,
                ),
                Some(ConfigFault::ServerTimerInvalid(id)) => id == s.id && (s.timer matches Some(t)
                    && (t.cron matches Some(cron) && words_of(cron).len() != 5)),
                Some(ConfigFault::DuplicateServerId(id)) => id == s.id && exists|j: int|
                    0 <= j < i && (#[trigger] servers[j]).id == id,
                Some(_) => false,
                None => stands_for_itself(s) && forall|j: int|
                    0 <= j < i ==> (#[trigger] servers[j]).id != s.id,
            }
        }),
{
    let s = servers[i];
    if forall|k: int| 0 <= k < s.id.len() ==> crate::config::is_id_char(#[trigger] s.id[k]) {
        assert forall|k: int| 0 <= k < s.id.len() implies ('0' <= #[trigger] s.id[k] <= '9' || 'a'
            <= s.id[k] <= 'z' || 'A' <= s.id[k] <= 'Z' || s.id[k] == '-' || s.id[k] == '_') by {
            assert(crate::config::is_id_char(s.id[k]));
        }
    } else {
        let k = choose|k: int| 0 <= k < s.id.len() && !crate::config::is_id_char(#[trigger] s.id[k]);
        assert(!('0' <= s.id[k] <= '9' || 'a' <= s.id[k] <= 'z' || 'A' <= s.id[k] <= 'Z' || s.id[k]
            == '-' || s.id[k] == '_'));
    }
}

/// A name means the first server that has it as its id, where that one is enabled; else it is
/// told whether there is none, or a disabled one.
pub proof fn name_means_its_server(servers: Seq<ServerModel>, id: Seq<char>, i: int)
    ensures
        stands_first(servers, id, i) && servers[i].enabled ==> chosen(servers, Some(id)) == Ok::<
            _,
            ConfigFault,
        >(servers[i]),
        stands_first(servers, id, i) && !servers[i].enabled ==> chosen(servers, Some(id)) == Err::<
            ServerModel,
            _,
        >(ConfigFault::DisabledServer(id)),
        (forall|j: int| 0 <= j < servers.len() ==> (#[trigger] servers[j]).id != id) ==> chosen(
            servers,
            Some(id),
        ) == Err::<ServerModel, _>(ConfigFault::UnknownServer(id)),
{
    lemma_position_of(servers, id);
    let p = position_of(servers, id);
    if stands_first(servers, id, i) {
        if i < p {
            assert(servers[i].id != id);
        } else if p < i {
            assert(servers[p].id != id);
        }
    }
}

proof fn lemma_enabled(servers: Seq<ServerModel>)
    ensures
        forall|k: int|
            0 <= k < enabled_models(servers).len() ==> (#[trigger] enabled_models(
                servers,
            )[k]).enabled && servers.contains(enabled_models(servers)[k]),
        forall|j: int|
            0 <= j < servers.len() && (#[trigger] servers[j]).enabled ==> enabled_models(
                servers,
            ).contains(servers[j]),
    decreases servers.len(),
{
    if servers.len() > 0 {
        let before = servers.drop_last();
        lemma_enabled(before);
        let e = enabled_models(before);
        let f = enabled_models(servers);
        assert forall|k: int| 0 <= k < f.len() implies (#[trigger] f[k]).enabled
            && servers.contains(f[k]) by {
            if k < e.len() {
                assert(f[k] == e[k]);
                let j = choose|j: int| 0 <= j < before.len() && before[j] == e[k];
                assert(servers[j] == f[k]);
            } else {
                assert(servers[servers.len() - 1] == f[k]);
            }
        }
        assert forall|j: int| 0 <= j < servers.len() && (
        #[trigger] servers[j]).enabled implies f.contains(servers[j]) by {
            if j < before.len() {
                assert(before[j] == servers[j]);
                let k = choose|k: int| 0 <= k < e.len() && e[k] == servers[j];
                assert(f[k] == servers[j]);
            } else {
                assert(f[f.len() - 1] == servers[j]);
            }
        }
    }
}

proof fn lemma_enabled_count(servers: Seq<ServerModel>, i: int, j: int)
    requires
        0 <= i < j < servers.len(),
        servers[i].enabled,
        servers[j].enabled,
    ensures
        enabled_models(servers).len() >= 2,
    decreases servers.len(),
{
    let before = servers.drop_last();
    if j < servers.len() - 1 {
        assert(before[i] == servers[i] && before[j] == servers[j]);
        lemma_enabled_count(before, i, j);
    } else {
        lemma_enabled(before);
        assert(before[i] == servers[i]);
        assert(enabled_models(before).contains(before[i]));
        assert(enabled_models(before).len() >= 1);
    }
}

proof fn lemma_enabled_single(servers: Seq<ServerModel>, i: int)
    requires
        0 <= i < servers.len(),
        servers[i].enabled,
        forall|j: int| 0 <= j < servers.len() && (#[trigger] servers[j]).enabled ==> j == i,
    ensures
        enabled_models(servers) == seq![servers[i]],
    decreases servers.len(),
{
    let before = servers.drop_last();
    if i < servers.len() - 1 {
        assert(before[i] == servers[i]);
        assert forall|j: int| 0 <= j < before.len() && (#[trigger] before[j]).enabled implies j
            == i by {
            assert(before[j] == servers[j]);
        }
        lemma_enabled_single(before, i);
        assert(!servers[servers.len() - 1].enabled);
    } else {
        lemma_enabled(before);
        let e = enabled_models(before);
        if e.len() > 0 {
            let j = choose|j: int| 0 <= j < before.len() && before[j] == e[0];
            assert(servers[j].enabled);
        }
        assert(e =~= Seq::empty());
        assert(enabled_models(servers) =~= seq![servers[i]]);
    }
}

/// Without a name the only enabled server is meant. Where several are enabled a name is asked
/// for, and where none is, none is meant.
pub proof fn one_enabled_server_needs_no_name(servers: Seq<ServerModel>, i: int, j: int)
    ensures
        0 <= i < servers.len() && servers[i].enabled && (forall|k: int|
            0 <= k < servers.len() && (#[trigger] servers[k]).enabled ==> k == i) ==> chosen(
            servers,
            None,
        ) == Ok::<_, ConfigFault>(servers[i]),
        0 <= i < j < servers.len() && servers[i].enabled && servers[j].enabled ==> chosen(
            servers,
            None,
        ) == Err::<ServerModel, _>(ConfigFault::SelectionRequired),
        (forall|k: int| 0 <= k < servers.len() ==> !(#[trigger] servers[k]).enabled) ==> chosen(
            servers,
            None,
        ) == Err::<ServerModel, _>(ConfigFault::NoEnabledServer),
{
    if 0 <= i < servers.len() && servers[i].enabled && (forall|k: int|
        0 <= k < servers.len() && (#[trigger] servers[k]).enabled ==> k == i) {
        lemma_enabled_single(servers, i);
    }
    if 0 <= i < j < servers.len() && servers[i].enabled && servers[j].enabled {
        lemma_enabled_count(servers, i, j);
    }
    if forall|k: int| 0 <= k < servers.len() ==> !(#[trigger] servers[k]).enabled {
        lemma_enabled(servers);
        let e = enabled_models(servers);
        if e.len() > 0 {
            let k = choose|k: int| 0 <= k < servers.len() && servers[k] == e[0];
            assert(servers[k].enabled);
        }
    }
}

/// A selection stands for one server, for which the above holds, or for all enabled ones in
/// their order.
pub proof fn selection_stands_for_servers(servers: Seq<ServerModel>, selection: ServerSelection<'_>)
    ensures
        match selection {
            ServerSelection::Id(id) => match chosen(servers, Some(id@)) {
                Ok(s) => selected(servers, selection) == Ok::<_, ConfigFault>(seq![s]),
                Err(f) => selected(servers, selection) == Err::<Seq<ServerModel>, _>(f),
            },
            ServerSelection::Unspecified => match chosen(servers, None) {
                Ok(s) => selected(servers, selection) == Ok::<_, ConfigFault>(seq![s]),
                Err(f) => selected(servers, selection) == Err::<Seq<ServerModel>, _>(f),
            },
            ServerSelection::All => {
                let enabled = servers.filter(|s: ServerModel| s.enabled);
                if enabled.len() == 0 {
                    selected(servers, selection) == Err::<Seq<ServerModel>, _>(
                        ConfigFault::NoEnabledServer,
                    )
                } else {
                    selected(servers, selection) == Ok::<_, ConfigFault>(enabled)
                }
            },
        },
{
    crate::config::enabled_servers_keep_their_order(servers);
}

} // verus!
