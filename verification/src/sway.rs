//! What the Sway window manager tells of its windows, and the commands that type into them.

use vstd::prelude::*;
use vstd::string::*;

use crate::audio::copy_bytes;
use crate::inject::FocusedWindow;
use crate::json;
use crate::json::Json;
use crate::text;

verus! {

/// Whether a node of the window tree says that it has the focus.
pub open spec fn has_focus(node: json::JsonTree) -> bool {
    json::member(node, "focused"@) == Some(json::JsonTree::Bool(true))
}

/// The items of a member are smaller than the value.
pub proof fn children_are_smaller(node: json::JsonTree, name: Seq<char>)
    ensures
        json::member(node, name) matches Some(json::JsonTree::Array(items)) ==> decreases_to!(
            node => items),
{
    if let Some(json::JsonTree::Array(items)) = json::member(node, name) {
        let fields = node->Object_0;
        let i = json::member_index(fields, name)->0 as int;
        member_index_in_range(fields, name);
        assert(decreases_to!(node => fields));
        assert(decreases_to!(fields => fields[i]));
        assert(decreases_to!(fields[i] => fields[i].1));
        assert(decreases_to!(fields[i].1 => items));
    }
}

/// A member index lies in the list.
proof fn member_index_in_range(fields: Seq<(Seq<char>, json::JsonTree)>, name: Seq<char>)
    ensures
        json::member_index(fields, name) matches Some(i) ==> i < fields.len() && fields[i as int].0
            == name,
    decreases fields.len(),
{
    if fields.len() > 0 && fields[0].0 != name {
        member_index_in_range(fields.drop_first(), name);
    }
}

/// The first node with the focus: the node itself, or one below its tiled children, or one below
/// its floating children.
pub open spec fn focused_node(node: json::JsonTree) -> Option<json::JsonTree>
    decreases node, 0nat,
{
    if has_focus(node) {
        Some(node)
    } else {
        let tiled = match json::member(node, "nodes"@) {
            Some(json::JsonTree::Array(items)) => {
                proof {
                    children_are_smaller(node, "nodes"@);
                }
                first_focused(items)
            },
            _ => None,
        };
        match tiled {
            Some(found) => Some(found),
            None => match json::member(node, "floating_nodes"@) {
                Some(json::JsonTree::Array(items)) => {
                    proof {
                        children_are_smaller(node, "floating_nodes"@);
                    }
                    first_focused(items)
                },
                _ => None,
            },
        }
    }
}

/// The first node with the focus in or below a list of nodes.
pub open spec fn first_focused(nodes: Seq<json::JsonTree>) -> Option<json::JsonTree>
    decreases nodes, 1nat,
{
    if nodes.len() == 0 {
        None
    } else {
        match focused_node(nodes[0]) {
            Some(found) => Some(found),
            None => first_focused(nodes.subrange(1, nodes.len() as int)),
        }
    }
}

/// The number of the first node with the focus.
pub open spec fn focused_node_id(node: json::JsonTree) -> Option<u64> {
    match focused_node(node) {
        Some(found) => match json::member(found, "id"@) {
            Some(json::JsonTree::Number(n, _)) => n,
            _ => None,
        },
        None => None,
    }
}

/// The first node with the focus among some children.
fn focused_child<'a>(value: &'a Json, name: &str) -> (r: Option<&'a Json>)
    ensures
        json::opt_tree(r) == match json::member(value@, name@) {
            Some(json::JsonTree::Array(items)) => first_focused(items),
            _ => None,
        },
    decreases *value, 0nat,
{
    match value.get(name) {
        Some(Json::Array(children)) => {
            let ghost nodes = match json::member(value@, name@) {
                Some(json::JsonTree::Array(items)) => items,
                _ => seq![],
            };
            let mut i: usize = 0;
            proof {
                assert(nodes.skip(0) =~= nodes);
            }
            while i < children.len()
                invariant
                    i <= children@.len(),
                    nodes.len() == children@.len(),
                    json::member(value@, name@) == Some(json::JsonTree::Array(nodes)),
                    decreases_to!(*value => *children),
                    forall|j: int| 0 <= j < nodes.len() ==> nodes[j] == (#[trigger] children@[j])@,
                    first_focused(nodes) == first_focused(nodes.skip(i as int)),
                decreases children@.len() - i,
            {
                proof {
                    assert(nodes.skip(i as int).subrange(1, nodes.skip(i as int).len() as int)
                        =~= nodes.skip(i + 1));
                    assert(nodes.skip(i as int)[0] == children@[i as int]@);
                    assert(decreases_to!(*children => children@));
                    assert(decreases_to!(children@ => children@[i as int]));
                }
                let child: &'a Json = &children[i];
                let found = focused_sway_node(child);
                if found.is_some() {
                    return found;
                }
                i += 1;
            }
            None
        },
        _ => None,
    }
}

/// The first node of a window tree that has the focus.
pub fn focused_sway_node<'a>(value: &'a Json) -> (r: Option<&'a Json>)
    ensures
        json::opt_tree(r) == focused_node(value@),
    decreases *value, 1nat,
{
    let focused = match value.get("focused") {
        Some(flag) => match flag.as_bool() {
            Some(focused) => focused,
            None => false,
        },
        None => false,
    };
    if focused {
        return Some(value);
    }
    let tiled = focused_child(value, "nodes");
    if tiled.is_some() {
        return tiled;
    }
    focused_child(value, "floating_nodes")
}

/// The number of the node of a window tree that has the focus.
pub fn focused_sway_node_id(value: &Json) -> (r: Option<u64>)
    ensures
        r == focused_node_id(value@),
{
    match focused_sway_node(value) {
        Some(node) => match node.get("id") {
            Some(id) => id.as_u64(),
            None => None,
        },
        None => None,
    }
}

/// The focused window that a window tree tells, or nothing if no node has the focus.
pub fn focused_window(tree: &Json) -> (r: Option<FocusedWindow>)
    ensures
        r == match focused_node_id(tree@) {
            Some(id) => Some(FocusedWindow(id)),
            None => None,
        },
{
    match focused_sway_node_id(tree) {
        Some(id) => Some(FocusedWindow(id)),
        None => None,
    }
}

/// The names by which a node of the window tree is known: its application, its window class and
/// its title, as far as they are there, with tabs between them.
pub open spec fn node_identity(node: json::JsonTree) -> Option<Seq<char>> {
    let class = match json::member(node, "window_properties"@) {
        Some(properties) => json::text_member(properties, "class"@),
        None => None,
    };
    let identity = text::joined(
        text::non_empty_parts(
            seq![
                text::or_empty(json::text_member(node, "app_id"@)),
                text::or_empty(class),
                text::or_empty(json::text_member(node, "name"@)),
            ],
        ),
        "\t"@,
    );
    if identity.len() == 0 {
        None
    } else {
        Some(identity)
    }
}

/// The names by which a node of the window tree is known.
pub fn sway_node_identity(value: &Json) -> (r: Option<String>)
    ensures
        text::opt_view(r) == node_identity(value@),
{
    let class = match value.get("window_properties") {
        Some(properties) => properties.get_str("class"),
        None => None,
    };
    let parts: Vec<String> = vec![
        text::owned_or_empty(value.get_str("app_id")),
        text::owned_or_empty(class),
        text::owned_or_empty(value.get_str("name")),
    ];
    proof {
        assert(text::views(parts@) =~= seq![parts@[0]@, parts@[1]@, parts@[2]@]);
    }
    let identity = text::join(&text::without_empty(parts), "\t");
    if identity.as_str().unicode_len() == 0 {
        None
    } else {
        Some(identity)
    }
}

/// What the names of terminal programs hold.
pub open spec fn terminal_names() -> Seq<Seq<char>> {
    seq![
        "alacritty"@,
        "foot"@,
        "kitty"@,
        "wezterm"@,
        "wezfurlong"@,
        "gnome-terminal"@,
        "kgx"@,
        "konsole"@,
        "xterm"@,
    ]
}

/// Whether a node with these names is a terminal.
pub open spec fn terminal_identity(identity: Seq<char>) -> bool {
    exists|i: int|
        0 <= i < terminal_names().len() && text::occurs(
            text::ascii_lower(identity),
            #[trigger] terminal_names()[i],
        )
}

/// Whether a node with these names is a terminal.
pub fn is_terminal_identity(identity: String) -> (r: bool)
    ensures
        r == terminal_identity(identity@),
{
    let lower = text::to_ascii_lowercase(identity.as_str());
    let names: Vec<String> = vec![
        "alacritty".to_owned(),
        "foot".to_owned(),
        "kitty".to_owned(),
        "wezterm".to_owned(),
        "wezfurlong".to_owned(),
        "gnome-terminal".to_owned(),
        "kgx".to_owned(),
        "konsole".to_owned(),
        "xterm".to_owned(),
    ];
    proof {
        assert(text::views(names@) =~= terminal_names());
    }
    let mut i: usize = 0;
    while i < names.len()
        invariant
            i <= names@.len(),
            lower@ == text::ascii_lower(identity@),
            text::views(names@) == terminal_names(),
            forall|j: int| 0 <= j < i ==> !text::occurs(lower@, #[trigger] terminal_names()[j]),
        decreases names@.len() - i,
    {
        proof {
            assert(names@[i as int]@ == terminal_names()[i as int]);
        }
        if text::contains(lower.as_str(), names[i].as_str()) {
            return true;
        }
        i += 1;
    }
    false
}

/// Whether a window tree says that a terminal has the focus.
pub open spec fn terminal_focused(tree: json::JsonTree) -> bool {
    match focused_node(tree) {
        Some(node) => match node_identity(node) {
            Some(identity) => terminal_identity(identity),
            None => false,
        },
        None => false,
    }
}

/// Whether a window tree says that a terminal has the focus.
pub fn focused_target_is_terminal(tree: &Json) -> (r: bool)
    ensures
        r == terminal_focused(tree@),
{
    match focused_sway_node(tree) {
        Some(node) => match sway_node_identity(node) {
            Some(identity) => is_terminal_identity(identity),
            None => false,
        },
        None => false,
    }
}

/// Whether a type that a clipboard offers is text.
pub open spec fn text_mime_type(mime_type: Seq<char>) -> bool {
    let name = text::ascii_lower(text::trimmed(mime_type));
    name == "utf8_string"@ || name == "string"@ || name == "text"@ || text::begins(name, "text/"@)
}

/// Whether a type that a clipboard offers is text.
pub fn is_text_mime_type(mime_type: &str) -> (r: bool)
    ensures
        r == text_mime_type(mime_type@),
{
    let name = text::to_ascii_lowercase(text::trim(mime_type));
    let name = name.as_str();
    text::same_text(name, "utf8_string") || text::same_text(name, "string") || text::same_text(
        name,
        "text",
    ) || text::starts_with(name, "text/")
}

/// What a clipboard offers.
#[derive(Debug, Clone, Copy, PartialEq, Eq, Structural)]
pub enum ClipboardOffer {
    Empty,
    Text,
    NonText,
}

/// Whether some of the types is text.
pub open spec fn some_text_type(types: Seq<Seq<char>>) -> bool {
    exists|i: int| 0 <= i < types.len() && text_mime_type(#[trigger] types[i])
}

/// What a clipboard offers that lists these types, one a line.
pub open spec fn offered(listing: Seq<char>) -> ClipboardOffer {
    if text::lines(listing).len() == 0 {
        ClipboardOffer::Empty
    } else if some_text_type(text::lines(listing)) {
        ClipboardOffer::Text
    } else {
        ClipboardOffer::NonText
    }
}

/// What a clipboard offers that lists these types, one a line.
pub fn clipboard_offer(listing: &str) -> (r: ClipboardOffer)
    ensures
        r == offered(listing@),
{
    let types = text::lines_of(listing);
    let ghost all = text::lines(listing@);
    let mut has_text = false;
    let mut i: usize = 0;
    while i < types.len()
        invariant
            i <= types@.len(),
            text::views(types@) == all,
            has_text == exists|j: int| 0 <= j < i && text_mime_type(#[trigger] all[j]),
        decreases types@.len() - i,
    {
        proof {
            assert(all[i as int] == types@[i as int]@);
        }
        if is_text_mime_type(types[i].as_str()) {
            has_text = true;
        }
        i += 1;
    }
    proof {
        assert(all.len() == types@.len());
    }
    if types.len() == 0 {
        ClipboardOffer::Empty
    } else if has_text {
        ClipboardOffer::Text
    } else {
        ClipboardOffer::NonText
    }
}

/// The process that a Sway socket belongs to, by the socket's name:
/// `sway-ipc.<user>.<process>.sock`.
pub open spec fn socket_pid(path: Seq<char>) -> Option<nat> {
    match text::path_file_name(path) {
        Some(name) => {
            let parts = text::pieces(name, "."@);
            if parts.len() == 4 && parts[0] == "sway-ipc"@ && parts[3] == "sock"@ {
                text::parsed_unsigned(parts[2], u32::MAX as nat)
            } else {
                None
            }
        },
        None => None,
    }
}

/// The process that a Sway socket belongs to, by the socket's name.
pub fn sway_pid_from_socket_path(sway_socket: &str) -> (r: Option<u32>)
    ensures
        match r {
            Some(pid) => socket_pid(sway_socket@) == Some(pid as nat),
            None => socket_pid(sway_socket@) is None,
        },
{
    match text::file_name(sway_socket) {
        Some(name) => {
            proof {
                reveal_strlit(".");
            }
            let parts = text::split_on(name.as_str(), ".");
            proof {
                assert(text::views(parts@).len() == parts@.len());
                assert(forall|i: int|
                    0 <= i < parts@.len() ==> text::views(parts@)[i] == (#[trigger] parts@[i])@);
            }
            if parts.len() == 4 && text::same_text(parts[0].as_str(), "sway-ipc")
                && text::same_text(parts[3].as_str(), "sock") {
                text::parse_u32(parts[2].as_str())
            } else {
                None
            }
        },
        None => None,
    }
}

/// Whether a file in the runtime directory is named like a Sway socket.
pub fn is_sway_socket_name(name: &str) -> (r: bool)
    ensures
        r == (text::begins(name@, "sway-ipc."@) && text::ends(name@, ".sock"@)),
{
    text::starts_with(name, "sway-ipc.") && text::ends_with(name, ".sock")
}

/// A socket in a directory.
#[derive(Debug, Clone, PartialEq, Eq)]
pub struct SocketEntry {
    pub path: String,
    /// When it was last changed, where that is known.
    pub modified: Option<i128>,
}

/// Whether a moment is not before another; an unknown one is before all others.
pub open spec fn not_before(a: Option<i128>, b: Option<i128>) -> bool {
    match a {
        Some(a) => match b {
            Some(b) => a >= b,
            None => true,
        },
        None => b is None,
    }
}

/// Whether a socket is the newest of some: none is newer, and those after it are older.
pub open spec fn newest_at(sockets: Seq<SocketEntry>, k: int) -> bool {
    &&& 0 <= k < sockets.len()
    &&& forall|i: int|
        0 <= i < sockets.len() ==> not_before(sockets[k].modified, (#[trigger] sockets[i]).modified)
    &&& forall|i: int|
        k < i < sockets.len() ==> !not_before(
            (#[trigger] sockets[i]).modified,
            sockets[k].modified,
        )
}

/// The newest of some sockets.
pub fn newest_socket(sockets: &Vec<SocketEntry>) -> (r: Option<String>)
    ensures
        match r {
            None => sockets@.len() == 0,
            Some(path) => exists|k: int| #[trigger]
                newest_at(sockets@, k) && path@ == sockets@[k].path@,
        },
{
    if sockets.len() == 0 {
        return None;
    }
    let mut best: usize = 0;
    let mut i: usize = 1;
    while i < sockets.len()
        invariant
            best < i <= sockets@.len(),
            newest_at(sockets@.take(i as int), best as int),
        decreases sockets@.len() - i,
    {
        let newer = match sockets[i].modified {
            Some(a) => match sockets[best].modified {
                Some(b) => a >= b,
                None => true,
            },
            None => sockets[best].modified.is_none(),
        };
        let ghost before = sockets@.take(i as int);
        let ghost after = sockets@.take(i + 1);
        proof {
            assert(forall|j: int| 0 <= j < i ==> before[j] == #[trigger] after[j]);
        }
        if newer {
            best = i;
        }
        i += 1;
    }
    proof {
        assert(sockets@.take(i as int) =~= sockets@);
        assert(newest_at(sockets@, best as int));
    }
    Some(sockets[best].path.clone())
}

/// Where the first zero byte stands, or the end if there is none.
pub open spec fn entry_end(bytes: Seq<u8>) -> nat
    decreases bytes.len(),
{
    if bytes.len() == 0 || bytes[0] == 0 {
        0
    } else {
        1 + entry_end(bytes.drop_first())
    }
}

/// The entry that some bytes are, if they are text.
pub open spec fn entry_text(bytes: Seq<u8>) -> Seq<Seq<char>> {
    if vstd::utf8::valid_utf8(bytes) {
        seq![vstd::utf8::decode_utf8(bytes)]
    } else {
        seq![]
    }
}

/// The entries of an environment, which zero bytes part; those that are no text are left out.
pub open spec fn environ_texts(bytes: Seq<u8>) -> Seq<Seq<char>>
    decreases bytes.len(),
{
    let end = entry_end(bytes) as int;
    let first = entry_text(bytes.take(end));
    if end < bytes.len() {
        first + environ_texts(bytes.skip(end + 1))
    } else {
        first
    }
}

/// The entries of an environment.
pub fn environ_entries(environ: &[u8]) -> (r: Vec<String>)
    ensures
        text::views(r@) == environ_texts(environ@),
{
    let mut entries: Vec<String> = Vec::new();
    let mut start: usize = 0;
    proof {
        assert(environ@.skip(0) =~= environ@);
        assert(text::views(entries@) =~= seq![]);
        assert(text::views(entries@) + environ_texts(environ@) =~= environ_texts(environ@));
    }
    loop
        invariant_except_break
            start <= environ@.len(),
            environ_texts(environ@) == text::views(entries@) + environ_texts(
                environ@.skip(start as int),
            ),
        ensures
            text::views(entries@) == environ_texts(environ@),
        decreases environ@.len() - start,
    {
        let ghost rest = environ@.skip(start as int);
        let ghost before = entries@;
        let mut end: usize = start;
        while end < environ.len() && environ[end] != 0
            invariant
                start <= end <= environ@.len(),
                entry_end(environ@.skip(start as int)) == end - start + entry_end(
                    environ@.skip(end as int),
                ),
            decreases environ@.len() - end,
        {
            proof {
                assert(environ@.skip(end as int).drop_first() =~= environ@.skip(end + 1));
            }
            end += 1;
        }
        proof {
            assert(entry_end(environ@.skip(end as int)) == 0);
            assert(rest.take(end - start) =~= environ@.subrange(start as int, end as int));
        }
        let bytes = copy_bytes(environ, start, end);
        match text::text_from_utf8(bytes) {
            Some(entry) => {
                entries.push(entry);
                proof {
                    assert(text::views(entries@) =~= text::views(before) + entry_text(
                        rest.take(end - start),
                    ));
                }
            },
            None => {
                proof {
                    assert(text::views(entries@) =~= text::views(before) + entry_text(
                        rest.take(end - start),
                    ));
                }
            },
        }
        if end >= environ.len() {
            proof {
                assert(environ_texts(rest) == entry_text(rest.take(end - start)));
            }
            break;
        }
        proof {
            assert(rest.skip(end - start + 1) =~= environ@.skip(end + 1));
            assert(text::views(entries@) + environ_texts(environ@.skip(end + 1)) =~= text::views(
                before,
            ) + environ_texts(rest));
        }
        start = end + 1;
    }
    entries
}

/// The display that the first entry `WAYLAND_DISPLAY=..` of an environment names.
pub open spec fn display_entry(entries: Seq<Seq<char>>) -> Option<Seq<char>>
    decreases entries.len(),
{
    if entries.len() == 0 {
        None
    } else if text::begins(entries[0], "WAYLAND_DISPLAY="@) {
        let display = entries[0].skip("WAYLAND_DISPLAY="@.len() as int);
        if display.len() == 0 {
            None
        } else {
            Some(display)
        }
    } else {
        display_entry(entries.drop_first())
    }
}

/// The display that the first entry `WAYLAND_DISPLAY=..` of an environment names.
pub fn display_from_environ(entries: &Vec<String>) -> (r: Option<String>)
    ensures
        text::opt_view(r) == display_entry(text::views(entries@)),
{
    let ghost all = text::views(entries@);
    let mut i: usize = 0;
    proof {
        assert(all.skip(0) =~= all);
    }
    while i < entries.len()
        invariant
            i <= entries@.len(),
            all == text::views(entries@),
            display_entry(all) == display_entry(all.skip(i as int)),
        decreases entries@.len() - i,
    {
        proof {
            assert(all.skip(i as int).drop_first() =~= all.skip(i + 1));
            assert(all.skip(i as int)[0] == entries@[i as int]@);
        }
        let entry = entries[i].as_str();
        if text::starts_with(entry, "WAYLAND_DISPLAY=") {
            let prefix = "WAYLAND_DISPLAY=".unicode_len();
            let len = entry.unicode_len();
            if len == prefix {
                return None;
            }
            let display = entry.substring_char(prefix, len);
            proof {
                assert(display@ =~= entry@.skip(prefix as int));
            }
            return Some(display.to_owned());
        }
        i += 1;
    }
    None
}

/// Which keys paste the clipboard.
#[derive(Debug, Clone, Copy, PartialEq, Eq, Structural)]
pub enum PasteMode {
    Gui,
    Terminal,
}

/// A command to run: the program, its arguments, and the display it is told, if any.
#[derive(Debug, Clone, PartialEq, Eq)]
pub struct CommandLine {
    pub program: String,
    pub args: Vec<String>,
    pub wayland_display: Option<String>,
}

/// How text is typed and pasted under Sway.
#[derive(Debug, Clone)]
pub struct SwayTextInjector {
    pub delay_millis: u32,
    pub paste_settle_delay_ms: u64,
    pub paste_in_terminals: bool,
    pub sway_socket: String,
    pub wayland_display: Option<String>,
}

/// The arguments that make `wtype` wait before and between keys.
pub open spec fn timing_args(delay_millis: u32) -> Seq<Seq<char>> {
    if delay_millis > 0 {
        seq![
            "-s"@,
            text::decimal(delay_millis as nat),
            "-d"@,
            text::decimal(delay_millis as nat),
        ]
    } else {
        seq![]
    }
}

/// The arguments that make `wtype` press a key `count` times.
pub open spec fn key_args(key: Seq<char>, count: nat) -> Seq<Seq<char>>
    decreases count,
{
    if count == 0 {
        seq![]
    } else {
        key_args(key, (count - 1) as nat).push("-k"@).push(key)
    }
}

/// The arguments that make `wtype` erase and then type what it reads.
pub open spec fn replacement_args(
    erase_count: nat,
    has_text_suffix: bool,
    delay_millis: u32,
) -> Seq<Seq<char>> {
    timing_args(delay_millis) + key_args("BackSpace"@, erase_count) + if has_text_suffix {
        seq!["-"@]
    } else {
        seq![]
    }
}

/// The arguments that make `wtype` press the keys that paste.
pub open spec fn paste_key_args(mode: PasteMode) -> Seq<Seq<char>> {
    match mode {
        PasteMode::Gui => seq!["-M"@, "ctrl"@, "-P"@, "v"@, "-p"@, "v"@, "-m"@, "ctrl"@],
        PasteMode::Terminal => seq![
            "-M"@,
            "ctrl"@,
            "-M"@,
            "shift"@,
            "-P"@,
            "v"@,
            "-p"@,
            "v"@,
            "-m"@,
            "shift"@,
            "-m"@,
            "ctrl"@,
        ],
    }
}

/// The arguments that make `wtype` erase and then paste.
pub open spec fn paste_args(erase_count: nat, mode: PasteMode, delay_millis: u32) -> Seq<
    Seq<char>,
> {
    timing_args(delay_millis) + key_args("BackSpace"@, erase_count) + (if delay_millis > 0
        && erase_count > 0 {
        seq!["-s"@, text::decimal(delay_millis as nat)]
    } else {
        seq![]
    }) + paste_key_args(mode)
}

/// Adds the arguments that make `wtype` press the keys that paste.
fn add_paste_keys(args: &mut Vec<String>, mode: PasteMode)
    ensures
        text::views(final(args)@) == text::views(old(args)@) + paste_key_args(mode),
{
    let ghost before = text::views(args@);
    match mode {
        PasteMode::Gui => {
            text::push_text(args, "-M");
            text::push_text(args, "ctrl");
            text::push_text(args, "-P");
            text::push_text(args, "v");
            text::push_text(args, "-p");
            text::push_text(args, "v");
            text::push_text(args, "-m");
            text::push_text(args, "ctrl");
            proof {
                assert(text::views(args@) =~= before + paste_key_args(PasteMode::Gui));
            }
        },
        PasteMode::Terminal => {
            text::push_text(args, "-M");
            text::push_text(args, "ctrl");
            text::push_text(args, "-M");
            text::push_text(args, "shift");
            text::push_text(args, "-P");
            text::push_text(args, "v");
            text::push_text(args, "-p");
            text::push_text(args, "v");
            text::push_text(args, "-m");
            text::push_text(args, "shift");
            text::push_text(args, "-m");
            text::push_text(args, "ctrl");
            proof {
                assert(text::views(args@) =~= before + paste_key_args(PasteMode::Terminal));
            }
        },
    }
}

/// Adds the arguments that make `wtype` press a key `count` times.
fn add_key_args(args: &mut Vec<String>, key: &str, count: usize)
    ensures
        text::views(final(args)@) == text::views(old(args)@) + key_args(key@, count as nat),
{
    let ghost before = text::views(args@);
    let mut i: usize = 0;
    proof {
        assert(before + key_args(key@, 0) =~= before);
    }
    while i < count
        invariant
            i <= count,
            text::views(args@) == before + key_args(key@, i as nat),
        decreases count - i,
    {
        text::push_text(args, "-k");
        text::push_text(args, key);
        proof {
            assert(text::views(args@) =~= before + key_args(key@, (i + 1) as nat));
        }
        i += 1;
    }
}

/// Adds the arguments that make `wtype` wait before and between keys.
fn add_timing_args(args: &mut Vec<String>, delay_millis: u32)
    ensures
        text::views(final(args)@) == text::views(old(args)@) + timing_args(delay_millis),
{
    let ghost before = text::views(args@);
    if delay_millis > 0 {
        let delay = text::decimal_text(delay_millis as u128);
        text::push_text(args, "-s");
        text::push_text(args, delay.as_str());
        text::push_text(args, "-d");
        text::push_text(args, delay.as_str());
    }
    proof {
        assert(text::views(args@) =~= before + timing_args(delay_millis));
    }
}

impl SwayTextInjector {
    /// An injector on the socket of Sway, which waits the given time between keys, if there is a
    /// socket. The display is the one that the environment names, or else that of Sway itself.
    pub fn detect(
        delay_microsecs: u32,
        paste_settle_delay_ms: u64,
        paste_in_terminals: bool,
        sway_socket: Option<String>,
        env_display: Option<String>,
        sway_display: Option<String>,
    ) -> (r: Option<Self>)
        ensures
            match sway_socket {
                None => r is None,
                Some(socket) => r matches Some(injector) && {
                    &&& injector.delay_millis == (delay_microsecs + 999) / 1000
                    &&& injector.paste_settle_delay_ms == paste_settle_delay_ms
                    &&& injector.paste_in_terminals == paste_in_terminals
                    &&& injector.sway_socket == socket
                    &&& injector.wayland_display == match env_display {
                        Some(display) => if display@.len() > 0 {
                            env_display
                        } else {
                            sway_display
                        },
                        None => sway_display,
                    }
                },
            },
    {
        let socket = match sway_socket {
            Some(socket) => socket,
            None => {
                return None;
            },
        };
        let wayland_display = match env_display {
            Some(display) => if display.as_str().unicode_len() > 0 {
                Some(display)
            } else {
                sway_display
            },
            None => sway_display,
        };
        let whole: u32 = delay_microsecs / 1000;
        let delay_millis: u32 = if delay_microsecs % 1000 > 0 {
            whole + 1
        } else {
            whole
        };
        Some(
            Self {
                delay_millis,
                paste_settle_delay_ms,
                paste_in_terminals,
                sway_socket: socket,
                wayland_display,
            },
        )
    }

    /// The command that prints the window tree.
    pub fn tree_command(&self) -> (r: CommandLine)
        ensures
            r.program@ == "swaymsg"@,
            text::views(r.args@) == seq![
                "-s"@,
                self.sway_socket@,
                "-r"@,
                "-t"@,
                "get_tree"@,
            ],
            r.wayland_display is None,
    {
        let mut args: Vec<String> = Vec::new();
        text::push_text(&mut args, "-s");
        text::push_text(&mut args, self.sway_socket.as_str());
        text::push_text(&mut args, "-r");
        text::push_text(&mut args, "-t");
        text::push_text(&mut args, "get_tree");
        proof {
            assert(text::views(args@) =~= seq![
                "-s"@,
                self.sway_socket@,
                "-r"@,
                "-t"@,
                "get_tree"@,
            ]);
        }
        CommandLine { program: "swaymsg".to_owned(), args, wayland_display: None }
    }

    /// The command that erases characters and then types what it reads, if it is to read
    /// anything.
    pub fn replacement_command(
        &self,
        erase_count: usize,
        has_text_suffix: bool,
        delay_millis: u32,
    ) -> (r: CommandLine)
        ensures
            r.program@ == "wtype"@,
            text::views(r.args@) == replacement_args(
                erase_count as nat,
                has_text_suffix,
                delay_millis,
            ),
            text::opt_view(r.wayland_display) == text::opt_view(self.wayland_display),
    {
        let mut args: Vec<String> = Vec::new();
        add_timing_args(&mut args, delay_millis);
        add_key_args(&mut args, "BackSpace", erase_count);
        if has_text_suffix {
            text::push_text(&mut args, "-");
        }
        proof {
            assert(text::views(args@) =~= replacement_args(
                erase_count as nat,
                has_text_suffix,
                delay_millis,
            ));
        }
        CommandLine {
            program: "wtype".to_owned(),
            args,
            wayland_display: text::clone_optional(&self.wayland_display),
        }
    }

    /// The command that erases characters and then pastes the clipboard.
    pub fn paste_command(&self, erase_count: usize, paste_mode: PasteMode) -> (r: CommandLine)
        ensures
            r.program@ == "wtype"@,
            text::views(r.args@) == paste_args(erase_count as nat, paste_mode, self.delay_millis),
            text::opt_view(r.wayland_display) == text::opt_view(self.wayland_display),
    {
        let mut args: Vec<String> = Vec::new();
        add_timing_args(&mut args, self.delay_millis);
        add_key_args(&mut args, "BackSpace", erase_count);
        if self.delay_millis > 0 && erase_count > 0 {
            text::push_text(&mut args, "-s");
            text::push_text(&mut args, text::decimal_text(self.delay_millis as u128).as_str());
        }
        proof {
            assert(text::views(args@) =~= timing_args(self.delay_millis) + key_args(
                "BackSpace"@,
                erase_count as nat,
            ) + (if self.delay_millis > 0 && erase_count > 0 {
                seq!["-s"@, text::decimal(self.delay_millis as nat)]
            } else {
                seq![]
            }));
        }
        add_paste_keys(&mut args, paste_mode);
        CommandLine {
            program: "wtype".to_owned(),
            args,
            wayland_display: text::clone_optional(&self.wayland_display),
        }
    }

    /// The command that presses a key, or nothing if it is to be pressed no time.
    pub fn key_command(&self, key: &str, count: usize) -> (r: Option<CommandLine>)
        ensures
            match r {
                Some(command) => count > 0 && command.program@ == "wtype"@ && text::views(
                    command.args@,
                ) == timing_args(self.delay_millis) + key_args(key@, count as nat)
                    && text::opt_view(command.wayland_display) == text::opt_view(
                    self.wayland_display,
                ),
                None => count == 0,
            },
    {
        if count == 0 {
            return None;
        }
        let mut args: Vec<String> = Vec::new();
        add_timing_args(&mut args, self.delay_millis);
        add_key_args(&mut args, key, count);
        proof {
            assert(text::views(args@) =~= timing_args(self.delay_millis) + key_args(
                key@,
                count as nat,
            ));
        }
        Some(
            CommandLine {
                program: "wtype".to_owned(),
                args,
                wayland_display: text::clone_optional(&self.wayland_display),
            },
        )
    }

    /// How a suffix is pasted, given the window tree; nothing if it is to be typed.
    pub fn paste_mode_for_suffix(&self, text_suffix: &str, tree: &Json) -> (r: Option<PasteMode>)
        ensures
            r == if text_suffix@.len() == 0 {
                None
            } else if !terminal_focused(tree@) {
                Some(PasteMode::Gui)
            } else if self.paste_in_terminals {
                Some(PasteMode::Terminal)
            } else {
                None
            },
    {
        if text_suffix.unicode_len() == 0 {
            return None;
        }
        if focused_target_is_terminal(tree) {
            if self.paste_in_terminals {
                Some(PasteMode::Terminal)
            } else {
                None
            }
        } else {
            Some(PasteMode::Gui)
        }
    }

    /// How long `wtype` waits between keys where it types a text: not at all where pasting was
    /// tried first.
    pub fn typed_delay_millis(&self, paste_mode: Option<PasteMode>) -> (r: u32)
        ensures
            r == if paste_mode is Some {
                0
            } else {
                self.delay_millis
            },
    {
        if paste_mode.is_some() {
            0
        } else {
            self.delay_millis
        }
    }

    /// How long a pasted text is left on the clipboard, in milliseconds.
    pub fn paste_delivery_delay_ms(&self) -> (r: u64)
        ensures
            r >= self.paste_settle_delay_ms,
            r >= self.delay_millis,
            r == self.paste_settle_delay_ms || r == self.delay_millis,
    {
        if self.paste_settle_delay_ms >= self.delay_millis as u64 {
            self.paste_settle_delay_ms
        } else {
            self.delay_millis as u64
        }
    }

    /// Whether a listening marker may be typed, given the window tree.
    pub fn shows_listening_marker(&self, tree: &Json) -> (r: bool)
        ensures
            r == !(self.paste_in_terminals && terminal_focused(tree@)),
    {
        !(self.paste_in_terminals && focused_target_is_terminal(tree))
    }
}

/// What came of an attempt to paste.
#[derive(Debug, Clone, Copy, PartialEq, Eq, Structural)]
pub enum PasteOutcome {
    /// The text was pasted.
    Delivered,
    /// The clipboard holds something that could not be put back.
    Occupied,
    /// Some step failed.
    Failed,
}

impl SwayTextInjector {
    /// The command that replaces characters by typing, where that is left to do: pasting was not
    /// tried or did not work, and there is something to erase or to type.
    pub fn typed_replacement(
        &self,
        erase_count: usize,
        text_suffix: &str,
        paste_mode: Option<PasteMode>,
        pasted: PasteOutcome,
    ) -> (r: Option<CommandLine>)
        ensures
            match r {
                None => (paste_mode is Some && pasted == PasteOutcome::Delivered) || (erase_count
                    == 0 && text_suffix@.len() == 0),
                Some(command) => {
                    &&& !(paste_mode is Some && pasted == PasteOutcome::Delivered)
                    &&& erase_count > 0 || text_suffix@.len() > 0
                    &&& command.program@ == "wtype"@
                    &&& text::views(command.args@) == replacement_args(
                        erase_count as nat,
                        text_suffix@.len() > 0,
                        if paste_mode is Some {
                            0
                        } else {
                            self.delay_millis
                        },
                    )
                    &&& text::opt_view(command.wayland_display) == text::opt_view(
                        self.wayland_display,
                    )
                },
            },
    {
        if paste_mode.is_some() && pasted == PasteOutcome::Delivered {
            return None;
        }
        let has_text = text_suffix.unicode_len() > 0;
        if erase_count == 0 && !has_text {
            return None;
        }
        let delay_millis: u32 = self.typed_delay_millis(paste_mode);
        Some(self.replacement_command(erase_count, has_text, delay_millis))
    }
}

/// How long to wait before the clipboard is tried again, in milliseconds; nothing after the third
/// attempt.
pub fn copy_retry_delay_ms(attempt: u32) -> (r: Option<u64>)
    ensures
        r == if attempt < 2 {
            Some((25 * (attempt + 1)) as u64)
        } else {
            None
        },
{
    if attempt < 2 {
        Some(25 * (attempt as u64 + 1))
    } else {
        None
    }
}

/// The node that is found has the focus. A node that has it is found itself; else the tiled nodes below
/// it are looked at before the floating ones, and nothing is found only if it is found in none of them.
pub proof fn the_focused_node_is_found(node: json::JsonTree)
    ensures
        json::member(node, "focused"@) == Some(json::JsonTree::Bool(true)) ==> focused_node(node)
            == Some(node),
        focused_node(node) matches Some(found) ==> json::member(found, "focused"@) == Some(
            json::JsonTree::Bool(true),
        ),
        json::member(node, "focused"@) != Some(json::JsonTree::Bool(true)) ==> ({
            let tiled = match json::member(node, "nodes"@) {
                Some(json::JsonTree::Array(items)) => first_focused(items),
                _ => None,
            };
            let floating = match json::member(node, "floating_nodes"@) {
                Some(json::JsonTree::Array(items)) => first_focused(items),
                _ => None,
            };
            &&& tiled is Some ==> focused_node(node) == tiled
            &&& tiled is None ==> focused_node(node) == floating
        }),
    decreases node, 0nat,
{
    if !has_focus(node) {
        if let Some(json::JsonTree::Array(items)) = json::member(node, "nodes"@) {
            children_are_smaller(node, "nodes"@);
            found_nodes_have_the_focus(items);
        }
        if let Some(json::JsonTree::Array(items)) = json::member(node, "floating_nodes"@) {
            children_are_smaller(node, "floating_nodes"@);
            found_nodes_have_the_focus(items);
        }
    }
}

proof fn found_nodes_have_the_focus(nodes: Seq<json::JsonTree>)
    ensures
        first_focused(nodes) matches Some(found) ==> json::member(found, "focused"@) == Some(
            json::JsonTree::Bool(true),
        ),
    decreases nodes, 1nat,
{
    if nodes.len() > 0 {
        the_focused_node_is_found(nodes[0]);
        found_nodes_have_the_focus(nodes.subrange(1, nodes.len() as int));
    }
}

/// Among several nodes, the first that has the focus, or has it below, counts.
pub proof fn the_first_of_several_counts(nodes: Seq<json::JsonTree>, k: int)
    requires
        -1 <= k < nodes.len(),
        k >= 0 ==> focused_node(nodes[k]) is Some,
        forall|j: int| 0 <= j < nodes.len() && (k < 0 || j < k) ==> focused_node(
            #[trigger] nodes[j],
        ) is None,
    ensures
        k >= 0 ==> first_focused(nodes) == focused_node(nodes[k]),
        k < 0 ==> first_focused(nodes) is None,
    decreases nodes.len(),
{
    if nodes.len() > 0 && k != 0 {
        assert(focused_node(nodes[0]) is None);
        let rest = nodes.subrange(1, nodes.len() as int);
        let m = if k < 0 {
            -1
        } else {
            k - 1
        };
        assert forall|j: int| 0 <= j < rest.len() && (m < 0 || j < m) implies focused_node(
            #[trigger] rest[j],
        ) is None by {
            assert(rest[j] == nodes[j + 1]);
        }
        the_first_of_several_counts(rest, m);
    }
}

/// The number of the window is that of the node with the focus.
pub proof fn windows_are_known_by_their_number(node: json::JsonTree)
    ensures
        focused_node(node) is None ==> focused_node_id(node) is None,
        focused_node(node) matches Some(found) ==> (json::member(found, "id"@) matches Some(
            json::JsonTree::Number(n, _),
        ) ==> focused_node_id(node) == n),
{
}

/// A window is known by its application, its class and its name, as far as they are given, with tabs
/// between them.
pub proof fn windows_are_known_by_their_names(node: json::JsonTree)
    ensures
        ({
            let app = text::or_empty(json::text_member(node, "app_id"@));
            let class = match json::member(node, "window_properties"@) {
                Some(properties) => text::or_empty(json::text_member(properties, "class"@)),
                None => seq![],
            };
            let name = text::or_empty(json::text_member(node, "name"@));
            &&& app.len() > 0 && class.len() > 0 && name.len() > 0 ==> node_identity(node) == Some(
                app + "\t"@ + class + "\t"@ + name,
            )
            &&& app.len() > 0 && class.len() == 0 && name.len() > 0 ==> node_identity(node) == Some(
                app + "\t"@ + name,
            )
            &&& app.len() == 0 && class.len() > 0 && name.len() > 0 ==> node_identity(node) == Some(
                class + "\t"@ + name,
            )
            &&& app.len() == 0 && class.len() == 0 && name.len() > 0 ==> node_identity(node) == Some(
                name,
            )
            &&& app.len() > 0 && class.len() == 0 && name.len() == 0 ==> node_identity(node) == Some(
                app,
            )
            &&& app.len() == 0 && class.len() == 0 && name.len() == 0 ==> node_identity(node) is None
        }),
{
    let app = text::or_empty(json::text_member(node, "app_id"@));
    let class = text::or_empty(
        match json::member(node, "window_properties"@) {
            Some(properties) => json::text_member(properties, "class"@),
            None => None,
        },
    );
    let name = text::or_empty(json::text_member(node, "name"@));
    let none = Seq::<Seq<char>>::empty();
    let all = seq![app, class, name];
    assert(all =~= none.push(app).push(class).push(name));
    text::only_empty_parts_are_left_out(none, app);
    text::only_empty_parts_are_left_out(none.push(app), class);
    text::only_empty_parts_are_left_out(none.push(app).push(class), name);
    assert(text::non_empty_parts(none) =~= none);
    let tab = "\t"@;
    assert(none.push(app) =~= seq![app]);
    assert(none.push(class) =~= seq![class]);
    assert(none.push(name) =~= seq![name]);
    text::joining_keeps_the_order(none, app, tab);
    text::joining_keeps_the_order(none, name, tab);
    text::joining_keeps_the_order(none, class, tab);
    text::joining_keeps_the_order(none.push(app), class, tab);
    text::joining_keeps_the_order(none.push(app), name, tab);
    text::joining_keeps_the_order(none.push(class), name, tab);
    text::joining_keeps_the_order(none.push(app).push(class), name, tab);
}

/// A window is a terminal if one of these names occurs in its own, whatever their capital letters; any
/// other is not.
pub proof fn terminals_are_known_by_name(identity: Seq<char>)
    ensures
        ({
            let lower = text::ascii_lower(identity);
            terminal_identity(identity) <==> text::occurs(lower, "alacritty"@) || text::occurs(
                lower,
                "foot"@,
            ) || text::occurs(lower, "kitty"@) || text::occurs(lower, "wezterm"@) || text::occurs(
                lower,
                "wezfurlong"@,
            ) || text::occurs(lower, "gnome-terminal"@) || text::occurs(lower, "kgx"@)
                || text::occurs(lower, "konsole"@) || text::occurs(lower, "xterm"@)
        }),
{
    let names = terminal_names();
    assert(names[0] == "alacritty"@ && names[1] == "foot"@ && names[2] == "kitty"@ && names[3]
        == "wezterm"@ && names[4] == "wezfurlong"@ && names[5] == "gnome-terminal"@ && names[6]
        == "kgx"@ && names[7] == "konsole"@ && names[8] == "xterm"@);
}

/// A terminal has the focus exactly if the node with the focus is known as one.
pub proof fn terminals_have_the_focus_as_windows_do(tree: json::JsonTree)
    ensures
        focused_node(tree) is None ==> !terminal_focused(tree),
        focused_node(tree) matches Some(node) ==> (node_identity(node) matches Some(identity)
            ==> terminal_focused(tree) == terminal_identity(identity)),
        focused_node(tree) matches Some(node) ==> (node_identity(node) is None
            ==> !terminal_focused(tree)),
{
}

/// A type is text if it is one of the names for it, or begins as text does, whatever its capital
/// letters and the white space round it.
pub proof fn types_of_text_are_known_by_name(mime_type: Seq<char>)
    ensures
        ({
            let name = text::ascii_lower(text::trimmed(mime_type));
            text_mime_type(mime_type) <==> name == "utf8_string"@ || name == "string"@ || name
                == "text"@ || exists|rest: Seq<char>| name == #[trigger] ("text/"@ + rest)
        }),
{
    let name = text::ascii_lower(text::trimmed(mime_type));
    if text::begins(name, "text/"@) {
        text::found_parts_are_there(name, "text/"@);
    }
    if exists|rest: Seq<char>| name == #[trigger] ("text/"@ + rest) {
        let rest = choose|rest: Seq<char>| name == #[trigger] ("text/"@ + rest);
        text::parts_are_found("text/"@, rest, rest);
    }
}

/// A clipboard offers text if one of the types that it lists is; it is empty if it lists none.
pub proof fn offers_are_told_by_their_types(listing: Seq<char>, k: int)
    ensures
        offered(listing) == ClipboardOffer::Empty <==> text::lines(listing).len() == 0,
        0 <= k < text::lines(listing).len() && text_mime_type(text::lines(listing)[k]) ==> offered(
            listing,
        ) == ClipboardOffer::Text,
        (forall|j: int|
            0 <= j < text::lines(listing).len() ==> !text_mime_type(
                #[trigger] text::lines(listing)[j],
            )) ==> offered(listing) != ClipboardOffer::Text,
{
}

/// A socket of Sway tells the process that it belongs to: its name has four parts, the user and the
/// process in the middle.
pub proof fn sockets_tell_their_process(dir: Seq<char>, user: Seq<char>, pid: nat)
    requires
        pid <= u32::MAX,
        forall|i: int| 0 <= i < user.len() ==> user[i] != '.' && user[i] != '/',
    ensures
        socket_pid(dir + "/"@ + ("sway-ipc"@ + "."@ + user + "."@ + text::decimal(pid) + "."@
            + "sock"@)) == Some(pid),
{
    reveal_strlit("sway-ipc");
    reveal_strlit("sock");
    reveal_strlit(".");
    reveal_strlit("..");
    let dot = seq!['.'];
    assert("."@ =~= dot);
    let head = "sway-ipc"@;
    let end = "sock"@;
    let digits = text::decimal(pid);
    text::written_numbers_are_read_back(pid);
    text::numbers_may_have_a_sign(pid, u32::MAX as nat);
    assert forall|i: int| 0 <= i < digits.len() implies digits[i] != '.' && digits[i] != '/' by {
        assert(text::is_digit_char(digits[i]));
    }
    let a = head + dot + user;
    let b = a + dot + digits;
    let name = b + dot + end;
    assert forall|i: int| 0 <= i < name.len() implies name[i] != '/' by {
        if i < 8 {
            assert(name[i] == head[i]);
        } else if 8 < i < a.len() {
            assert(name[i] == user[i - 9]);
        } else if a.len() < i < b.len() {
            assert(name[i] == digits[i - a.len() - 1]);
        } else if b.len() < i {
            assert(name[i] == end[i - b.len() - 1]);
        }
    }
    assert(name.len() > 2);
    text::file_names_stand_behind_the_last_slash(dir, name);
    text::a_separator_parts_the_pieces(b, '.', end);
    text::a_separator_parts_the_pieces(a, '.', digits);
    text::a_separator_parts_the_pieces(head, '.', user);
    no_dot_is_one_piece(head);
    no_dot_is_one_piece(user);
    no_dot_is_one_piece(digits);
    no_dot_is_one_piece(end);
    assert(text::pieces(name, dot) =~= seq![head, user, digits, end]);
    assert("sway-ipc"@ + "."@ + user + "."@ + digits + "."@ + "sock"@ =~= name);
}

proof fn no_dot_is_one_piece(s: Seq<char>)
    requires
        forall|i: int| 0 <= i < s.len() ==> s[i] != '.',
    ensures
        text::pieces(s, seq!['.']) == seq![s],
{
    text::first_index_is_an_occurrence(s, seq!['.']);
    if let Some(i) = text::first_index(s, seq!['.']) {
        assert(s.subrange(i as int, (i + 1) as int)[0] == s[i as int]);
    }
}

/// Of some sockets the one that was changed last is the newest, and among several of those the last
/// one. One whose time is not known is older than all others.
pub proof fn the_last_changed_socket_is_the_newest(sockets: Seq<SocketEntry>, k: int, i: int)
    requires
        newest_at(sockets, k),
        0 <= i < sockets.len(),
    ensures
        0 <= k < sockets.len(),
        sockets[i].modified matches Some(at) ==> sockets[k].modified is Some && at
            <= sockets[k].modified->0,
        i > k ==> (sockets[i].modified matches Some(at) ==> at < sockets[k].modified->0),
        i > k ==> sockets[k].modified is Some,
{
    assert(not_before(sockets[k].modified, sockets[i].modified));
}

/// The entries of an environment stand between zero bytes, each by itself. One that is no text is left
/// out.
pub proof fn zero_bytes_part_entries(entry: Seq<u8>, rest: Seq<u8>)
    requires
        forall|i: int| 0 <= i < entry.len() ==> entry[i] != 0,
    ensures
        environ_texts(entry + seq![0u8] + rest) == environ_texts(entry) + environ_texts(rest),
        vstd::utf8::valid_utf8(entry) ==> environ_texts(entry) == seq![
            vstd::utf8::decode_utf8(entry),
        ],
        !vstd::utf8::valid_utf8(entry) ==> environ_texts(entry).len() == 0,
{
    let all = entry + seq![0u8] + rest;
    entry_ends_at(entry, all);
    entry_ends_at(entry, entry);
    assert(all.take(entry.len() as int) =~= entry);
    assert(entry.take(entry.len() as int) =~= entry);
    assert(all.skip((entry.len() + 1) as int) =~= rest);
}

proof fn entry_ends_at(entry: Seq<u8>, all: Seq<u8>)
    requires
        entry.len() <= all.len(),
        forall|i: int| 0 <= i < entry.len() ==> entry[i] != 0 && all[i] == entry[i],
        entry.len() < all.len() ==> all[entry.len() as int] == 0,
    ensures
        entry_end(all) == entry.len(),
    decreases entry.len(),
{
    if entry.len() > 0 {
        assert(all[0] == entry[0]);
        let rest = entry.drop_first();
        let more = all.drop_first();
        assert forall|i: int| 0 <= i < rest.len() implies rest[i] != 0 && more[i] == rest[i] by {
            assert(rest[i] == entry[i + 1]);
            assert(more[i] == all[i + 1]);
        }
        if entry.len() < all.len() {
            assert(more[rest.len() as int] == all[entry.len() as int]);
        }
        entry_ends_at(rest, more);
    }
}

/// The first entry for the display counts, unless it is empty; other entries before it do not.
pub proof fn the_first_display_counts(entries: Seq<Seq<char>>, display: Seq<char>, other: Seq<char>)
    requires
        !text::begins(other, "WAYLAND_DISPLAY="@),
    ensures
        display.len() > 0 ==> display_entry(seq!["WAYLAND_DISPLAY="@ + display] + entries) == Some(
            display,
        ),
        display_entry(seq!["WAYLAND_DISPLAY="@] + entries) is None,
        display_entry(seq![other] + entries) == display_entry(entries),
        display_entry(Seq::<Seq<char>>::empty()) is None,
{
    let mark = "WAYLAND_DISPLAY="@;
    let named = mark + display;
    assert(named.take(mark.len() as int) =~= mark);
    assert(named.skip(mark.len() as int) =~= display);
    assert(mark.take(mark.len() as int) =~= mark);
    assert(mark.skip(mark.len() as int) =~= seq![]);
    assert((seq![other] + entries).drop_first() =~= entries);
}

/// A key is pressed just as often as wanted.
pub proof fn keys_are_pressed_as_often_as_wanted(key: Seq<char>, count: nat, k: int)
    requires
        0 <= k < count,
    ensures
        key_args(key, count).len() == 2 * count,
        key_args(key, count)[2 * k] == "-k"@,
        key_args(key, count)[2 * k + 1] == key,
        key_args(key, 0).len() == 0,
    decreases count,
{
    if count == 1 {
        assert(key_args(key, 0).len() == 0);
    } else if k < count - 1 {
        keys_are_pressed_as_often_as_wanted(key, (count - 1) as nat, k);
    } else {
        keys_are_pressed_as_often_as_wanted(key, (count - 1) as nat, 0);
    }
}

/// An edit waits first, where it is to, then erases, and reads a text only where there is one; an edit
/// that pastes waits again behind what it erases, and presses the keys that paste in the end.
pub proof fn edits_erase_before_they_write(erase_count: nat, mode: PasteMode, delay_millis: u32)
    ensures
        ({
            let erase = key_args("BackSpace"@, erase_count);
            let wait = text::decimal(delay_millis as nat);
            &&& delay_millis == 0 ==> replacement_args(erase_count, true, delay_millis) == erase
                + seq!["-"@]
            &&& delay_millis == 0 ==> replacement_args(erase_count, false, delay_millis) == erase
            &&& delay_millis > 0 ==> replacement_args(erase_count, true, delay_millis) == seq![
                "-s"@,
                wait,
                "-d"@,
                wait,
            ] + erase + seq!["-"@]
            &&& delay_millis == 0 ==> paste_args(erase_count, mode, delay_millis) == erase
                + paste_key_args(mode)
            &&& delay_millis > 0 && erase_count > 0 ==> paste_args(erase_count, mode, delay_millis)
                == seq!["-s"@, wait, "-d"@, wait] + erase + seq!["-s"@, wait] + paste_key_args(mode)
            &&& delay_millis > 0 && erase_count == 0 ==> paste_args(
                erase_count,
                mode,
                delay_millis,
            ) == seq!["-s"@, wait, "-d"@, wait] + paste_key_args(mode)
        }),
{
    let erase = key_args("BackSpace"@, erase_count);
    let wait = text::decimal(delay_millis as nat);
    let none = Seq::<Seq<char>>::empty();
    assert(none + erase + seq!["-"@] =~= erase + seq!["-"@]);
    assert(none + erase + none =~= erase);
    assert(none + erase + none + paste_key_args(mode) =~= erase + paste_key_args(mode));
    let timing = seq!["-s"@, wait, "-d"@, wait];
    if erase_count == 0 {
        assert(erase =~= none);
        assert(timing + erase + none + paste_key_args(mode) =~= timing + paste_key_args(mode));
    }
}

} // verus!
