//! Renaming, changing, removing and reordering the servers of a configuration.

use vstd::prelude::*;
use crate::config::{
    find_server, lemma_position_of, position_of, server_models, valid_server, valid_servers,
    AppConfig, ConfigModel, SecretToken, ServerConfig, ServerModel,
};
use crate::text::{contains_text, is_blank, is_blank_text, opt_text};

verus! {

#[derive(Clone, Debug, PartialEq, Eq)]
pub struct ServerAddressUpdate {
    pub address: String,
    pub country: String,
    pub flag: String,
    pub resolved_ip: Option<String>,
}

#[verifier::ext_equal]
pub struct AddressModel {
    pub address: Seq<char>,
    pub country: Seq<char>,
    pub flag: Seq<char>,
    pub resolved_ip: Option<Seq<char>>,
}

impl View for ServerAddressUpdate {
    type V = AddressModel;

    open spec fn view(&self) -> AddressModel {
        AddressModel {
            address: self.address@,
            country: self.country@,
            flag: self.flag@,
            resolved_ip: opt_text(self.resolved_ip),
        }
    }
}

#[derive(Clone, Copy, Debug, PartialEq, Eq, Structural)]
pub enum ManageError {
    EmptyName,
    UnknownServer,
}

pub open spec fn manage_error_text(e: ManageError) -> Seq<char> {
    match e {
        ManageError::EmptyName => "服务器名称不能为空"@,
        ManageError::UnknownServer => "未找到服务器"@,
    }
}

impl ManageError {
    pub fn message(&self) -> (r: String)
        ensures
            r@ == manage_error_text(*self),
    {
        match self {
            ManageError::EmptyName => "服务器名称不能为空".to_owned(),
            ManageError::UnknownServer => "未找到服务器".to_owned(),
        }
    }
}

/// The configuration with other servers.
pub open spec fn with_servers(config: ConfigModel, servers: Seq<ServerModel>) -> ConfigModel {
    ConfigModel { servers, ..config }
}

/// The configuration with one server replaced.
pub open spec fn replaced_at(config: ConfigModel, i: int, s: ServerModel) -> ConfigModel {
    with_servers(config, config.servers.update(i, s))
}

/// An operation came to `result`: the configuration is that one, or it failed and is as it was.
pub open spec fn came_to(
    before: ConfigModel,
    after: ConfigModel,
    result: Result<ConfigModel, ManageError>,
    r: Result<(), ManageError>,
) -> bool {
    match result {
        Ok(c) => r is Ok && after == c,
        Err(e) => r == Err::<(), ManageError>(e) && after == before,
    }
}

pub open spec fn renamed(s: ServerModel, name: Seq<char>) -> ServerModel {
    ServerModel { name, ..s }
}

pub open spec fn relocated(s: ServerModel, u: AddressModel) -> ServerModel {
    ServerModel {
        address: Some(u.address),
        country: Some(u.country),
        flag: Some(u.flag),
        resolved_ip: u.resolved_ip,
        ..s
    }
}

pub open spec fn with_token(s: ServerModel, token: Seq<char>) -> ServerModel {
    ServerModel { token, ..s }
}

/// The two neighbours `i` and `i + 1` exchanged.
pub open spec fn swapped(servers: Seq<ServerModel>, i: int) -> Seq<ServerModel> {
    servers.update(i, servers[i + 1]).update(i + 1, servers[i])
}

/// The server at `i` one place up, where there is one.
pub open spec fn moved_up(servers: Seq<ServerModel>, i: int) -> Seq<ServerModel> {
    if i > 0 {
        swapped(servers, i - 1)
    } else {
        servers
    }
}

/// The server at `i` one place down, where there is one.
pub open spec fn moved_down(servers: Seq<ServerModel>, i: int) -> Seq<ServerModel> {
    if i + 1 < servers.len() {
        swapped(servers, i)
    } else {
        servers
    }
}

/// The configuration after a server has a new name, or why it cannot have it.
pub open spec fn after_rename(config: ConfigModel, id: Seq<char>, name: Seq<char>) -> Result<
    ConfigModel,
    ManageError,
> {
    let i = position_of(config.servers, id);
    if is_blank(name) {
        Err(ManageError::EmptyName)
    } else if i < config.servers.len() {
        Ok(replaced_at(config, i, renamed(config.servers[i], name)))
    } else {
        Err(ManageError::UnknownServer)
    }
}

pub open spec fn after_address(config: ConfigModel, id: Seq<char>, update: AddressModel) -> Result<
    ConfigModel,
    ManageError,
> {
    let i = position_of(config.servers, id);
    if i < config.servers.len() {
        Ok(replaced_at(config, i, relocated(config.servers[i], update)))
    } else {
        Err(ManageError::UnknownServer)
    }
}

pub open spec fn after_token(config: ConfigModel, id: Seq<char>, token: Seq<char>) -> Result<
    ConfigModel,
    ManageError,
> {
    let i = position_of(config.servers, id);
    if i < config.servers.len() {
        Ok(replaced_at(config, i, with_token(config.servers[i], token)))
    } else {
        Err(ManageError::UnknownServer)
    }
}

pub open spec fn after_delete(config: ConfigModel, id: Seq<char>) -> Result<
    ConfigModel,
    ManageError,
> {
    let i = position_of(config.servers, id);
    if i < config.servers.len() {
        Ok(with_servers(config, config.servers.remove(i)))
    } else {
        Err(ManageError::UnknownServer)
    }
}

/// The configuration after a server was moved by one place, up or down.
pub open spec fn after_move(config: ConfigModel, id: Seq<char>, up: bool) -> Result<
    ConfigModel,
    ManageError,
> {
    let i = position_of(config.servers, id);
    if i < config.servers.len() {
        Ok(
            with_servers(
                config,
                if up {
                    moved_up(config.servers, i)
                } else {
                    moved_down(config.servers, i)
                },
            ),
        )
    } else {
        Err(ManageError::UnknownServer)
    }
}

fn server_index(config: &AppConfig, server_id: &str) -> (r: Option<usize>)
    ensures
        match r {
            Some(i) => i == position_of(config@.servers, server_id@) && i < config.servers@.len(),
            None => position_of(config@.servers, server_id@) >= config@.servers.len(),
        },
{
    let i = find_server(config.servers.as_slice(), server_id);
    if i < config.servers.len() {
        Some(i)
    } else {
        None
    }
}

fn put_server(config: &mut AppConfig, i: usize, server: ServerConfig)
    requires
        i < old(config).servers@.len(),
    ensures
        final(config)@ == replaced_at(old(config)@, i as int, server@),
{
    config.servers.set(i, server);
    assert(server_models(config.servers@) =~= server_models(old(config).servers@).update(
        i as int,
        server@,
    ));
}

pub fn rename_server(config: &mut AppConfig, server_id: &str, name: String) -> (r: Result<
    (),
    ManageError,
>)
    ensures
        came_to(old(config)@, final(config)@, after_rename(old(config)@, server_id@, name@), r),
        r is Err ==> final(config)@ == old(config)@,
        r is Ok <==> after_rename(old(config)@, server_id@, name@) is Ok,
        after_rename(old(config)@, server_id@, name@) matches Ok(c) ==> final(config)@ == c,
{
    if is_blank_text(name.as_str()) {
        return Err(ManageError::EmptyName);
    }
    match server_index(config, server_id) {
        None => Err(ManageError::UnknownServer),
        Some(i) => {
            let mut server = config.servers[i].clone();
            server.name = name;
            put_server(config, i, server);
            Ok(())
        },
    }
}

pub fn update_server_address(
    config: &mut AppConfig,
    server_id: &str,
    update: ServerAddressUpdate,
) -> (r: Result<(), ManageError>)
    ensures
        came_to(old(config)@, final(config)@, after_address(old(config)@, server_id@, update@), r),
        r is Err ==> final(config)@ == old(config)@,
        r is Ok <==> after_address(old(config)@, server_id@, update@) is Ok,
        after_address(old(config)@, server_id@, update@) matches Ok(c) ==> final(config)@ == c,
{
    match server_index(config, server_id) {
        None => Err(ManageError::UnknownServer),
        Some(i) => {
            let mut server = config.servers[i].clone();
            server.address = Some(update.address);
            server.country = Some(update.country);
            server.flag = Some(update.flag);
            server.resolved_ip = update.resolved_ip;
            put_server(config, i, server);
            Ok(())
        },
    }
}

pub fn update_server_token(config: &mut AppConfig, server_id: &str, token: SecretToken) -> (r:
    Result<(), ManageError>)
    ensures
        came_to(old(config)@, final(config)@, after_token(old(config)@, server_id@, token@), r),
        r is Err ==> final(config)@ == old(config)@,
        r is Ok <==> after_token(old(config)@, server_id@, token@) is Ok,
        after_token(old(config)@, server_id@, token@) matches Ok(c) ==> final(config)@ == c,
{
    match server_index(config, server_id) {
        None => Err(ManageError::UnknownServer),
        Some(i) => {
            let mut server = config.servers[i].clone();
            server.token = token;
            put_server(config, i, server);
            Ok(())
        },
    }
}

pub fn delete_server(config: &mut AppConfig, server_id: &str) -> (r: Result<(), ManageError>)
    ensures
        came_to(old(config)@, final(config)@, after_delete(old(config)@, server_id@), r),
        r is Err ==> final(config)@ == old(config)@,
        r is Ok <==> after_delete(old(config)@, server_id@) is Ok,
        after_delete(old(config)@, server_id@) matches Ok(c) ==> final(config)@ == c,
{
    match server_index(config, server_id) {
        None => Err(ManageError::UnknownServer),
        Some(i) => {
            config.servers.remove(i);
            assert(server_models(config.servers@) =~= server_models(old(config).servers@).remove(
                i as int,
            ));
            Ok(())
        },
    }
}

/// Exchanges the servers at `i` and `i + 1`.
fn swap_servers(config: &mut AppConfig, i: usize)
    requires
        i + 1 < old(config).servers@.len(),
    ensures
        final(config)@ == with_servers(old(config)@, swapped(old(config)@.servers, i as int)),
{
    let total: usize = config.servers.len();
    assert(i + 1 < total);
    let a = config.servers[i].clone();
    let b = config.servers[i + 1].clone();
    config.servers.set(i, b);
    config.servers.set(i + 1, a);
    assert(server_models(config.servers@) =~= swapped(
        server_models(old(config).servers@),
        i as int,
    ));
}

pub fn move_server_up(config: &mut AppConfig, server_id: &str) -> (r: Result<(), ManageError>)
    ensures
        came_to(old(config)@, final(config)@, after_move(old(config)@, server_id@, true), r),
        r is Err ==> final(config)@ == old(config)@,
        r is Ok <==> after_move(old(config)@, server_id@, true) is Ok,
        after_move(old(config)@, server_id@, true) matches Ok(c) ==> final(config)@ == c,
{
    match server_index(config, server_id) {
        None => Err(ManageError::UnknownServer),
        Some(i) => {
            if i > 0 {
                swap_servers(config, i - 1);
            }
            Ok(())
        },
    }
}

pub fn move_server_down(config: &mut AppConfig, server_id: &str) -> (r: Result<(), ManageError>)
    ensures
        came_to(old(config)@, final(config)@, after_move(old(config)@, server_id@, false), r),
        r is Err ==> final(config)@ == old(config)@,
        r is Ok <==> after_move(old(config)@, server_id@, false) is Ok,
        after_move(old(config)@, server_id@, false) matches Ok(c) ==> final(config)@ == c,
{
    match server_index(config, server_id) {
        None => Err(ManageError::UnknownServer),
        Some(i) => {
            let total: usize = config.servers.len();
            if i < total - 1 {
                swap_servers(config, i);
            }
            Ok(())
        },
    }
}

// ---------------------------------------------------------------------------
// What the operations do
// ---------------------------------------------------------------------------

/// The first server with this id stands at `i`.
pub open spec fn stands_first(servers: Seq<ServerModel>, id: Seq<char>, i: int) -> bool {
    &&& 0 <= i < servers.len()
    &&& servers[i].id == id
    &&& forall|j: int| 0 <= j < i ==> (#[trigger] servers[j]).id != id
}

/// The configurations agree in all but the server at `i`, and there are as many servers.
pub open spec fn differ_at_most_in(a: ConfigModel, b: ConfigModel, i: int) -> bool {
    &&& a.global_timer == b.global_timer
    &&& a.tg_token == b.tg_token
    &&& a.tg_chat_id == b.tg_chat_id
    &&& a.tg_pair_code == b.tg_pair_code
    &&& a.tg_pair_expires_at == b.tg_pair_expires_at
    &&& a.change_ip_cooldown == b.change_ip_cooldown
    &&& a.migration_notice == b.migration_notice
    &&& a.servers.len() == b.servers.len()
    &&& forall|j: int| 0 <= j < a.servers.len() && j != i ==> #[trigger] a.servers[j] == b.servers[j]
}

pub(crate) proof fn lemma_stands_first(servers: Seq<ServerModel>, id: Seq<char>)
    ensures
        position_of(servers, id) < servers.len() ==> stands_first(
            servers,
            id,
            position_of(servers, id),
        ),
        position_of(servers, id) >= servers.len() ==> forall|j: int|
            0 <= j < servers.len() ==> (#[trigger] servers[j]).id != id,
        forall|i: int| stands_first(servers, id, i) ==> i == position_of(servers, id),
{
    lemma_position_of(servers, id);
    let p = position_of(servers, id);
    assert forall|i: int| stands_first(servers, id, i) implies i == p by {
        if i < p {
            assert(servers[i].id != id);
        } else if p < i {
            assert(servers[p].id != id);
        }
    }
}

/// A new token changes the token of the first server with that id, and nothing else: not its
/// timer, not another server, not another setting. Without such a server nothing is changed.
pub proof fn token_edit_changes_the_token_only(
    config: ConfigModel,
    id: Seq<char>,
    token: Seq<char>,
    i: int,
)
    ensures
        stands_first(config.servers, id, i) ==> (after_token(config, id, token) matches Ok(c)
            && differ_at_most_in(c, config, i) && {
            let new = c.servers[i];
            let old = config.servers[i];
            &&& new.token == token
            &&& new.id == old.id
            &&& new.name == old.name
            &&& new.enabled == old.enabled
            &&& new.address == old.address
            &&& new.country == old.country
            &&& new.flag == old.flag
            &&& new.resolved_ip == old.resolved_ip
            &&& new.timer == old.timer
        }),
        (forall|j: int| 0 <= j < config.servers.len() ==> (#[trigger] config.servers[j]).id != id)
            ==> after_token(config, id, token) == Err::<ConfigModel, _>(ManageError::UnknownServer),
{
    lemma_stands_first(config.servers, id);
    lemma_position_of(config.servers, id);
}

/// A new name changes the name of the first server with that id, and nothing else. A blank
/// name is refused, before it is asked which server it is for.
pub proof fn rename_changes_the_name_only(
    config: ConfigModel,
    id: Seq<char>,
    name: Seq<char>,
    i: int,
)
    ensures
        is_blank(name) ==> after_rename(config, id, name) == Err::<ConfigModel, _>(
            ManageError::EmptyName,
        ),
        !is_blank(name) && stands_first(config.servers, id, i) ==> (after_rename(
            config,
            id,
            name,
        ) matches Ok(c) && differ_at_most_in(c, config, i) && {
            let new = c.servers[i];
            let old = config.servers[i];
            &&& new.name == name
            &&& new.id == old.id
            &&& new.token == old.token
            &&& new.enabled == old.enabled
            &&& new.address == old.address
            &&& new.country == old.country
            &&& new.flag == old.flag
            &&& new.resolved_ip == old.resolved_ip
            &&& new.timer == old.timer
        }),
        !is_blank(name) && (forall|j: int|
            0 <= j < config.servers.len() ==> (#[trigger] config.servers[j]).id != id)
            ==> after_rename(config, id, name) == Err::<ConfigModel, _>(ManageError::UnknownServer),
{
    lemma_stands_first(config.servers, id);
    lemma_position_of(config.servers, id);
}

/// A new address changes what is known of the address of the first server with that id, all
/// of it, and nothing else.
pub proof fn address_edit_changes_the_address_only(
    config: ConfigModel,
    id: Seq<char>,
    update: AddressModel,
    i: int,
)
    ensures
        stands_first(config.servers, id, i) ==> (after_address(config, id, update) matches Ok(c)
            && differ_at_most_in(c, config, i) && {
            let new = c.servers[i];
            let old = config.servers[i];
            &&& new.address == Some(update.address)
            &&& new.country == Some(update.country)
            &&& new.flag == Some(update.flag)
            &&& new.resolved_ip == update.resolved_ip
            &&& new.id == old.id
            &&& new.name == old.name
            &&& new.token == old.token
            &&& new.enabled == old.enabled
            &&& new.timer == old.timer
        }),
        (forall|j: int| 0 <= j < config.servers.len() ==> (#[trigger] config.servers[j]).id != id)
            ==> after_address(config, id, update) == Err::<ConfigModel, _>(
            ManageError::UnknownServer,
        ),
{
    lemma_stands_first(config.servers, id);
    lemma_position_of(config.servers, id);
}

/// Deleting takes the first server with that id out, and nothing else: the others stay, in
/// their order, and so do all other settings.
pub proof fn delete_takes_one_server_out(config: ConfigModel, id: Seq<char>, i: int)
    ensures
        stands_first(config.servers, id, i) ==> (after_delete(config, id) matches Ok(c) && {
            &&& c == (ConfigModel { servers: c.servers, ..config })
            &&& c.servers.len() == config.servers.len() - 1
            &&& forall|j: int| 0 <= j < i ==> #[trigger] c.servers[j] == config.servers[j]
            &&& forall|j: int|
                i <= j < c.servers.len() ==> #[trigger] c.servers[j] == config.servers[j + 1]
        }),
        (forall|j: int| 0 <= j < config.servers.len() ==> (#[trigger] config.servers[j]).id != id)
            ==> after_delete(config, id) == Err::<ConfigModel, _>(ManageError::UnknownServer),
{
    lemma_stands_first(config.servers, id);
    lemma_position_of(config.servers, id);
}

/// After a server was deleted from a valid configuration, none has its id; the configuration
/// is valid, and another server is there exactly where it was there before.
pub proof fn deleted_server_is_gone(config: ConfigModel, id: Seq<char>, other: ServerModel)
    requires
        valid_servers(config.servers),
        after_delete(config, id) is Ok,
    ensures
        after_delete(config, id) matches Ok(c) && {
            &&& valid_servers(c.servers)
            &&& forall|j: int| 0 <= j < c.servers.len() ==> (#[trigger] c.servers[j]).id != id
            &&& other.id != id ==> (c.servers.contains(other) <==> config.servers.contains(other))
        },
{
    lemma_position_of(config.servers, id);
    deleting_removes_one_server(config.servers, id);
    let i = position_of(config.servers, id);
    delete_takes_one_server_out(config, id, i);
    lemma_stands_first(config.servers, id);
    let c = after_delete(config, id)->Ok_0;
    let a = config.servers;
    if other.id != id && a.contains(other) {
        let j = choose|j: int| 0 <= j < a.len() && a[j] == other;
        if j < i {
            assert(c.servers[j] == other);
        } else {
            assert(c.servers[j - 1] == other);
        }
    }
    if c.servers.contains(other) {
        let j = choose|j: int| 0 <= j < c.servers.len() && c.servers[j] == other;
        if j < i {
            assert(a[j] == other);
        } else {
            assert(a[j + 1] == other);
        }
    }
}

/// Moving a server exchanges it with the one above it, or below it, and nothing else; the
/// first one is not moved up and the last one not down.
pub proof fn move_exchanges_neighbours(config: ConfigModel, id: Seq<char>, up: bool, i: int)
    ensures
        stands_first(config.servers, id, i) ==> (after_move(config, id, up) matches Ok(c) && {
            let n = config.servers.len();
            let to = if up {
                i - 1
            } else {
                i + 1
            };
            &&& c == (ConfigModel { servers: c.servers, ..config })
            &&& c.servers.len() == n
            &&& !(0 <= to < n) ==> c == config
            &&& 0 <= to < n ==> c.servers[to] == config.servers[i] && c.servers[i]
                == config.servers[to]
            &&& 0 <= to < n ==> forall|j: int|
                0 <= j < n && j != i && j != to ==> #[trigger] c.servers[j] == config.servers[j]
        }),
        (forall|j: int| 0 <= j < config.servers.len() ==> (#[trigger] config.servers[j]).id != id)
            ==> after_move(config, id, up) == Err::<ConfigModel, _>(ManageError::UnknownServer),
{
    lemma_stands_first(config.servers, id);
    lemma_position_of(config.servers, id);
}

/// What was moved up and then down again stands where it stood.
pub proof fn move_is_undone(config: ConfigModel, id: Seq<char>, up: bool)
    requires
        valid_servers(config.servers),
        after_move(config, id, up) matches Ok(c) && c != config,
    ensures
        after_move(after_move(config, id, up)->Ok_0, id, !up) == Ok::<_, ManageError>(config),
{
    lemma_position_of(config.servers, id);
    lemma_stands_first(config.servers, id);
    let i = position_of(config.servers, id);
    move_exchanges_neighbours(config, id, up, i);
    let c = after_move(config, id, up)->Ok_0;
    let to = if up {
        i - 1
    } else {
        i + 1
    };
    assert forall|j: int| 0 <= j < to implies (#[trigger] c.servers[j]).id != id by {
        if j == i {
            assert(c.servers[i] == config.servers[to]);
            assert(config.servers[i].id != config.servers[to].id);
        } else {
            assert(c.servers[j] == config.servers[j]);
        }
    }
    assert(stands_first(c.servers, id, to));
    move_exchanges_neighbours(c, id, !up, to);
    let d = after_move(c, id, !up)->Ok_0;
    assert(d.servers =~= config.servers) by {
        assert forall|j: int| 0 <= j < d.servers.len() implies d.servers[j] == config.servers[j] by {
            if j != i && j != to {
                assert(c.servers[j] == config.servers[j]);
                assert(d.servers[j] == c.servers[j]);
            }
        }
    }
}

// ---------------------------------------------------------------------------
// What the operations keep
// ---------------------------------------------------------------------------

/// A valid server in the place of another one with its id leaves valid servers valid.
proof fn lemma_update_keeps_valid(servers: Seq<ServerModel>, i: int, s: ServerModel)
    requires
        valid_servers(servers),
        0 <= i < servers.len(),
        s.id == servers[i].id,
        valid_server(s),
    ensures
        valid_servers(servers.update(i, s)),
{
    let t = servers.update(i, s);
    assert forall|j: int| 0 <= j < t.len() implies valid_server(#[trigger] t[j]) by {
        if j != i {
            assert(t[j] == servers[j]);
        }
    }
    assert forall|j: int, k: int| 0 <= j < k < t.len() implies (#[trigger] t[j]).id != (
    #[trigger] t[k]).id by {
        assert(t[j].id == servers[j].id);
        assert(t[k].id == servers[k].id);
    }
}

/// A new name, a new address and a new token leave a valid configuration valid, where
/// the name and the token are not blank and the token is not a part of the id.
pub proof fn editing_keeps_servers_valid(
    servers: Seq<ServerModel>,
    i: int,
    name: Seq<char>,
    update: AddressModel,
    token: Seq<char>,
)
    requires
        valid_servers(servers),
        0 <= i < servers.len(),
    ensures
        !is_blank(name) ==> valid_servers(servers.update(i, renamed(servers[i], name))),
        valid_servers(servers.update(i, relocated(servers[i], update))),
        !is_blank(token) && !contains_text(servers[i].id, token) ==> valid_servers(
            servers.update(i, with_token(servers[i], token)),
        ),
{
    assert(valid_server(servers[i]));
    if !is_blank(name) {
        lemma_update_keeps_valid(servers, i, renamed(servers[i], name));
    }
    lemma_update_keeps_valid(servers, i, relocated(servers[i], update));
    if !is_blank(token) && !contains_text(servers[i].id, token) {
        lemma_update_keeps_valid(servers, i, with_token(servers[i], token));
    }
}

/// Removing a server leaves a valid configuration valid, leaves the others as they are
/// and in their order, and leaves no server with that id.
pub proof fn deleting_removes_one_server(servers: Seq<ServerModel>, id: Seq<char>)
    requires
        valid_servers(servers),
        position_of(servers, id) < servers.len(),
    ensures
        ({
            let i = position_of(servers, id);
            let t = servers.remove(i);
            &&& valid_servers(t)
            &&& t.len() == servers.len() - 1
            &&& forall|j: int| 0 <= j < t.len() ==> (#[trigger] t[j]).id != id
            &&& forall|j: int| 0 <= j < i ==> (#[trigger] t[j]) == servers[j]
            &&& forall|j: int| i <= j < t.len() ==> (#[trigger] t[j]) == servers[j + 1]
        }),
{
    lemma_position_of(servers, id);
    let i = position_of(servers, id);
    let t = servers.remove(i);
    assert forall|j: int| 0 <= j < t.len() implies valid_server(#[trigger] t[j]) by {
        if j < i {
            assert(t[j] == servers[j]);
        } else {
            assert(t[j] == servers[j + 1]);
        }
    }
    assert forall|j: int, k: int| 0 <= j < k < t.len() implies (#[trigger] t[j]).id != (
    #[trigger] t[k]).id by {
        let j0 = if j < i {
            j
        } else {
            j + 1
        };
        let k0 = if k < i {
            k
        } else {
            k + 1
        };
        assert(t[j] == servers[j0] && t[k] == servers[k0]);
    }
    assert forall|j: int| 0 <= j < t.len() implies (#[trigger] t[j]).id != id by {
        if j < i {
            assert(t[j] == servers[j]);
        } else {
            assert(t[j] == servers[j + 1]);
            assert(servers[i].id != servers[j + 1].id);
        }
    }
}

/// Reordering keeps the same servers: moving one up and then down again, or down and
/// then up again, gives the old order, and a valid configuration stays valid.
pub proof fn moving_keeps_the_servers(servers: Seq<ServerModel>, i: int)
    requires
        0 <= i < servers.len(),
    ensures
        i > 0 ==> moved_down(moved_up(servers, i), i - 1) == servers,
        i + 1 < servers.len() ==> moved_up(moved_down(servers, i), i + 1) == servers,
        moved_up(servers, i).to_multiset() == servers.to_multiset(),
        moved_down(servers, i).to_multiset() == servers.to_multiset(),
        valid_servers(servers) ==> valid_servers(moved_up(servers, i)) && valid_servers(
            moved_down(servers, i),
        ),
{
    if i > 0 {
        assert(moved_down(moved_up(servers, i), i - 1) =~= servers);
        lemma_swap_multiset(servers, i - 1);
        if valid_servers(servers) {
            lemma_swap_valid(servers, i - 1);
        }
    }
    if i + 1 < servers.len() {
        assert(moved_up(moved_down(servers, i), i + 1) =~= servers);
        lemma_swap_multiset(servers, i);
        if valid_servers(servers) {
            lemma_swap_valid(servers, i);
        }
    }
}

proof fn lemma_swap_multiset(servers: Seq<ServerModel>, i: int)
    requires
        0 <= i,
        i + 1 < servers.len(),
    ensures
        swapped(servers, i).to_multiset() == servers.to_multiset(),
{
    broadcast use vstd::seq_lib::group_to_multiset_ensures;

    let a = servers[i];
    let b = servers[i + 1];
    let t = servers.update(i, b);
    vstd::seq_lib::to_multiset_update(servers, i, b);
    vstd::seq_lib::to_multiset_update(t, i + 1, a);
    assert(swapped(servers, i).to_multiset() =~= servers.to_multiset());
}

proof fn lemma_swap_valid(servers: Seq<ServerModel>, i: int)
    requires
        0 <= i,
        i + 1 < servers.len(),
        valid_servers(servers),
    ensures
        valid_servers(swapped(servers, i)),
{
    let t = swapped(servers, i);
    assert forall|j: int| 0 <= j < t.len() implies valid_server(#[trigger] t[j]) by {
        let j0 = if j == i {
            i + 1
        } else if j == i + 1 {
            i
        } else {
            j
        };
        assert(t[j] == servers[j0]);
    }
    assert forall|j: int, k: int| 0 <= j < k < t.len() implies (#[trigger] t[j]).id != (
    #[trigger] t[k]).id by {
        let j0 = if j == i {
            i + 1
        } else if j == i + 1 {
            i
        } else {
            j
        };
        let k0 = if k == i {
            i + 1
        } else if k == i + 1 {
            i
        } else {
            k
        };
        assert(t[j] == servers[j0] && t[k] == servers[k0]);
        if j0 < k0 {
            assert(servers[j0].id != servers[k0].id);
        } else {
            assert(servers[k0].id != servers[j0].id);
        }
    }
}

} // verus!
