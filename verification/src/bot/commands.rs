//! The commands of the bot, its menu and its help.

use vstd::prelude::*;
use crate::bot::callbacks::{order, with_arg};
use crate::bot::pairing::PairingApplyResult;
use crate::bot::formatting::{escaped, html_escape};
use crate::bot::ui::{
    button, button_of, plain, plain_with, Keyboard, KeyboardModel, Reply, ReplyModel,
};
use crate::text::{join, joined, texts};

verus! {

/// An order that is written in a chat.
#[derive(Clone, Debug, PartialEq, Eq)]
pub enum Command {
    Start,
    Help,
    Status(String),
    Check(String),
    Change(String),
    Timer,
    Servers,
    Addserver,
    Pair(String),
}

pub enum CommandModel {
    Start,
    Help,
    Status(Seq<char>),
    Check(Seq<char>),
    Change(Seq<char>),
    Timer,
    Servers,
    Addserver,
    Pair(Seq<char>),
}

impl View for Command {
    type V = CommandModel;

    open spec fn view(&self) -> CommandModel {
        match self {
            Command::Start => CommandModel::Start,
            Command::Help => CommandModel::Help,
            Command::Status(a) => CommandModel::Status(a@),
            Command::Check(a) => CommandModel::Check(a@),
            Command::Change(a) => CommandModel::Change(a@),
            Command::Timer => CommandModel::Timer,
            Command::Servers => CommandModel::Servers,
            Command::Addserver => CommandModel::Addserver,
            Command::Pair(a) => CommandModel::Pair(a@),
        }
    }
}

/// A command of the menu, and what it does.
#[derive(Clone, Debug, PartialEq, Eq)]
pub struct MenuCommand {
    pub command: String,
    pub description: String,
}

pub type MenuModel = Seq<(Seq<char>, Seq<char>)>;

pub open spec fn menu_model(v: Seq<MenuCommand>) -> MenuModel {
    Seq::new(v.len(), |i: int| (v[i].command@, v[i].description@))
}

/// The commands of the menu, in their order.
pub open spec fn command_specs() -> MenuModel {
    seq![
        ("start"@, "打开操作菜单"@),
        ("status"@, "查看 VPS 当前状态"@),
        ("change"@, "更换已启用 VPS 的 IP"@),
        ("timer"@, "管理定时换 IP"@),
        ("servers"@, "查看服务器列表"@),
        ("addserver"@, "添加服务器 Token"@),
        ("help"@, "查看使用帮助"@),
    ]
}

fn menu_command(command: &str, description: &str) -> (r: MenuCommand)
    ensures
        r.command@ == command@,
        r.description@ == description@,
{
    MenuCommand { command: command.to_owned(), description: description.to_owned() }
}

pub fn menu_commands() -> (r: Vec<MenuCommand>)
    ensures
        menu_model(r@) == command_specs(),
{
    let mut r: Vec<MenuCommand> = Vec::new();
    r.push(menu_command("start", "打开操作菜单"));
    r.push(menu_command("status", "查看 VPS 当前状态"));
    r.push(menu_command("change", "更换已启用 VPS 的 IP"));
    r.push(menu_command("timer", "管理定时换 IP"));
    r.push(menu_command("servers", "查看服务器列表"));
    r.push(menu_command("addserver", "添加服务器 Token"));
    r.push(menu_command("help", "查看使用帮助"));
    assert(menu_model(r@) =~= command_specs());
    r
}

/// The line of the help about a command.
pub open spec fn help_line(c: (Seq<char>, Seq<char>)) -> Seq<char> {
    "/"@ + c.0 + " — "@ + c.1
}

/// The help: a line for each command of a menu.
pub open spec fn help_of(menu: MenuModel) -> Seq<char> {
    joined(seq!["可用命令："@] + Seq::new(menu.len(), |i: int| help_line(menu[i])), "\n"@)
}

/// The help about the commands of a menu.
pub fn help_about(menu: &Vec<MenuCommand>) -> (r: String)
    ensures
        r@ == help_of(menu_model(menu@)),
{
    let mut lines: Vec<String> = Vec::new();
    lines.push("可用命令：".to_owned());
    let mut i: usize = 0;
    let ghost m = menu_model(menu@);
    while i < menu.len()
        invariant
            i <= menu@.len(),
            m == menu_model(menu@),
            lines@.len() == i + 1,
            lines@[0]@ == "可用命令："@,
            forall|k: int| 0 <= k < i ==> (#[trigger] lines@[k + 1])@ == help_line(m[k]),
        decreases menu@.len() - i,
    {
        let c = &menu[i];
        let mut line = "/".to_owned();
        line.append(c.command.as_str());
        line.append(" — ");
        line.append(c.description.as_str());
        let ghost before = lines@;
        lines.push(line);
        assert forall|k: int| 0 <= k < i + 1 implies (#[trigger] lines@[k + 1])@ == help_line(
            m[k],
        ) by {
            if k < i {
                assert(lines@[k + 1] == before[k + 1]);
            }
        }
        i += 1;
    }
    let ghost want = seq!["可用命令："@] + Seq::new(m.len(), |i: int| help_line(m[i]));
    assert(texts(lines@) =~= want) by {
        assert forall|k: int| 0 <= k < want.len() implies texts(lines@)[k] == #[trigger] want[k] by {
            if k > 0 {
                assert(lines@[(k - 1) + 1]@ == help_line(m[k - 1]));
            }
        }
    }
    join(&lines, "\n")
}

pub fn help_text() -> (r: String)
    ensures
        r@ == help_of(command_specs()),
{
    help_about(&menu_commands())
}

pub open spec fn start_keyboard() -> KeyboardModel {
    seq![
        seq![
            button_of("➕ 添加服务器"@, with_arg("menu"@, "addserver"@)),
            button_of("🖥 服务器列表"@, with_arg("menu"@, "servers"@)),
        ],
        seq![
            button_of("📊 查看状态"@, with_arg("menu"@, "status"@)),
            button_of("🔄 更换 IP"@, with_arg("menu"@, "change"@)),
        ],
        seq![
            button_of("⏰ 定时换 IP"@, with_arg("menu"@, "timer"@)),
            button_of("❓ 帮助"@, with_arg("menu"@, "help"@)),
        ],
    ]
}

pub fn start_menu_keyboard() -> (r: Keyboard)
    ensures
        r@ == start_keyboard(),
{
    let mut k = Keyboard::new();
    k.push_two(
        button("➕ 添加服务器", order("menu", "addserver").as_str()),
        button("🖥 服务器列表", order("menu", "servers").as_str()),
    );
    k.push_two(
        button("📊 查看状态", order("menu", "status").as_str()),
        button("🔄 更换 IP", order("menu", "change").as_str()),
    );
    k.push_two(
        button("⏰ 定时换 IP", order("menu", "timer").as_str()),
        button("❓ 帮助", order("menu", "help").as_str()),
    );
    assert(k@ =~= start_keyboard());
    k
}

pub open spec fn start_menu() -> ReplyModel {
    plain_with("欢迎使用 boilchangeip。\n请选择下面的操作："@, start_keyboard())
}

pub fn send_start_menu() -> (r: Reply)
    ensures
        r@ == start_menu(),
{
    Reply::plain_with(
        "欢迎使用 boilchangeip。\n请选择下面的操作：".to_owned(),
        start_menu_keyboard(),
    )
}

pub fn send_help() -> (r: Reply)
    ensures
        r@ == plain(help_of(command_specs())),
{
    Reply::plain(help_text())
}

pub open spec fn pairing_text(r: PairingApplyResult) -> Seq<char> {
    match r {
        PairingApplyResult::Paired => "✅ 配对成功，已启用 Telegram 菜单。"@,
        PairingApplyResult::InvalidOrExpired => "配对码无效或已过期"@,
        PairingApplyResult::AlreadyBound => "拒绝访问"@,
        PairingApplyResult::SaveFailed(e) => "❌ 配对失败，无法保存配置: "@ + escaped(e@),
    }
}

/// The message about a pairing code, and, where the chat is bound now, the menu.
pub fn pairing_replies(result: &PairingApplyResult) -> (r: (Reply, Option<Reply>))
    ensures
        r.0@ == plain(pairing_text(*result)),
        r.1 is Some <==> *result == PairingApplyResult::Paired,
        r.1 matches Some(m) ==> m@ == start_menu(),
{
    match result {
        PairingApplyResult::Paired => (
            Reply::say("✅ 配对成功，已启用 Telegram 菜单。"),
            Some(send_start_menu()),
        ),
        PairingApplyResult::InvalidOrExpired => (Reply::say("配对码无效或已过期"), None),
        PairingApplyResult::AlreadyBound => (Reply::say("拒绝访问"), None),
        PairingApplyResult::SaveFailed(e) => {
            let mut text = "❌ 配对失败，无法保存配置: ".to_owned();
            text.append(html_escape(e.as_str()).as_str());
            (Reply::plain(text), None)
        },
    }
}

/// The help has a line for each command of the menu, in the order of the menu.
pub proof fn help_follows_the_menu(menu: MenuModel, i: int)
    requires
        0 <= i < menu.len(),
    ensures
        (seq!["可用命令："@] + Seq::new(menu.len(), |i: int| help_line(menu[i])))[i + 1]
            == help_line(menu[i]),
        crate::text::contains_text(help_of(menu), help_line(menu[i])),
{
    let parts = seq!["可用命令："@] + Seq::new(menu.len(), |i: int| help_line(menu[i]));
    assert(parts[i + 1] == help_line(menu[i]));
    lemma_joined_contains(parts, "\n"@, i + 1);
}

proof fn lemma_joined_contains(parts: Seq<Seq<char>>, sep: Seq<char>, i: int)
    requires
        0 <= i < parts.len(),
    ensures
        crate::text::contains_text(joined(parts, sep), parts[i]),
    decreases parts.len(),
{
    let all = joined(parts, sep);
    if parts.len() == 1 {
        assert(crate::text::rest(all, 0) =~= parts[0]);
        assert(parts[0].subrange(0, parts[0].len() as int) =~= parts[0]);
        assert(crate::text::starts_with(crate::text::rest(all, 0), parts[i]));
    } else {
        let head = joined(parts.drop_last(), sep);
        assert(all == head + sep + parts.last());
        if i == parts.len() - 1 {
            let n = (head.len() + sep.len()) as int;
            assert(crate::text::rest(all, n) =~= parts.last());
            assert(parts.last().subrange(0, parts.last().len() as int) =~= parts.last());
            assert(crate::text::starts_with(crate::text::rest(all, n), parts[i]));
        } else {
            lemma_joined_contains(parts.drop_last(), sep, i);
            let p = parts[i];
            assert(parts.drop_last()[i] == p);
            let k = choose|k: int|
                0 <= k <= head.len() && crate::text::starts_with(
                    #[trigger] crate::text::rest(head, k),
                    p,
                );
            assert(crate::text::rest(all, k).subrange(0, p.len() as int) =~= crate::text::rest(
                head,
                k,
            ).subrange(0, p.len() as int));
            assert(crate::text::starts_with(crate::text::rest(all, k), p));
        }
    }
}

} // verus!
