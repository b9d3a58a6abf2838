//! What the shell's commands answer. The commands here only read: the
//! file tree, the current directory and the network address.

use vstd::prelude::*;
use crate::fs::{
    copy_node, get_node_info, listing_of, listing_view, ls, mkdir, move_node, read, rm, touch,
    walk_tree, walk_view, walked, Node, NodeView,
};
use crate::strings::{chars_of, push_char, string_from_utf8};
use crate::text::{
    contains, decimal, joined, join, lines, lines_of, occurs, parse_usize, parsed_number,
    part_views, push_chars, push_decimal, push_decimal_wide, spells, split_whitespace, to_string,
    words,
};

verus! {

/// The answer of `help`.
pub open spec fn help_text() -> Seq<char> {
    "Commands: ls, net, ping, run, term, top, wifi\n"@
}

/// The networks `wifi list` shows.
pub open spec fn wifi_list_text() -> Seq<char> {
    "Scanning for networks...\n"@ + "SSID              SIGNAL  SEC   CH\n"@
        + "----------------------------------\n"@ + "Home_5G           98%     WPA3  36\n"@
        + "Chronos_Internal  82%     WPA2  1\n"@ + "Office_Guest      65%     Open  11\n"@
        + "Starbucks_WiFi    40%     WPA2  6\n"@ + "Neighbour_4       22%     WPA2  11\n"@
}

/// What `wifi connect` shows for a network.
pub open spec fn wifi_connect_text(ssid: Seq<char>) -> Seq<char> {
    "Connecting to '"@ + ssid + "'...\n"@ + "  [.] Handshake\n"@ + "  [..] Authenticating\n"@
        + "  [...] Obtaining IP Address\n"@ + "Connected! IP: 192.168.1.105 (DNS: 1.1.1.1)\n"@
}

/// The answer of `wifi`.
pub open spec fn wifi_text(parts: Seq<Seq<char>>) -> Seq<char> {
    if parts.len() > 1 && parts[1] == "list"@ {
        wifi_list_text()
    } else if parts.len() > 2 && parts[1] == "connect"@ {
        wifi_connect_text(parts[2])
    } else {
        "Usage: wifi list | wifi connect <ssid>\n"@
    }
}

/// The answer of `install`.
pub open spec fn install_text() -> Seq<char> {
    "Initializing Chronos Setup...\n"@ + "  [####                ] 20% - Copying Core Files\n"@
        + "  [########            ] 40% - Configuring Drivers\n"@
        + "  [############        ] 60% - Setting up User Environment\n"@
        + "  [################    ] 80% - Finalizing System\n"@
        + "  [####################] 100% - Done!\n"@
        + "System installed successfully. Please reboot.\n"@
}

/// The lines `ls` shows for the first `upto` entries.
pub open spec fn ls_lines(items: Seq<(Seq<char>, bool)>, upto: nat) -> Seq<char>
    decreases upto,
{
    if upto == 0 || upto > items.len() {
        Seq::empty()
    } else {
        ls_lines(items, (upto - 1) as nat) + (if items[upto - 1].1 {
            "[DIR]  "@
        } else {
            "[FILE] "@
        }) + items[upto - 1].0 + seq!['\n']
    }
}

/// The answer of `ls` in directory `dir`.
pub open spec fn ls_text(root: NodeView, dir: Seq<char>) -> Seq<char> {
    match root.dir_at(dir) {
        Some(d) => ls_lines(listing_of(d.children()), d.children().len()),
        None => "Error: Could not list directory.\n"@,
    }
}

/// What a file holds, read as text.
pub enum FileText {
    /// There is no such file.
    Missing,
    /// The file holds no valid UTF-8.
    Binary(nat),
    /// The file holds the text, in as many bytes as given.
    Text(Seq<char>, nat),
}

/// The file called `name` in directory `dir`, read as text.
pub open spec fn file_text(root: NodeView, dir: Seq<char>, name: Seq<char>) -> FileText {
    match root.file_at(dir, name) {
        Some(data) => if vstd::utf8::valid_utf8(data) {
            FileText::Text(vstd::utf8::decode_utf8(data), data.len())
        } else {
            FileText::Binary(data.len())
        },
        None => FileText::Missing,
    }
}

/// The answer of `cat`.
pub open spec fn cat_text(root: NodeView, dir: Seq<char>, parts: Seq<Seq<char>>) -> Seq<char> {
    if parts.len() < 2 {
        "Usage: cat <file>\n"@
    } else {
        match file_text(root, dir, parts[1]) {
            FileText::Text(text, _) => text + "\n"@,
            FileText::Binary(_) => "[Binary Data]\n"@,
            FileText::Missing => "Error: File not found.\n"@,
        }
    }
}

/// Those of the first `upto` lines that hold `pattern`, each followed by
/// a line feed.
pub open spec fn matching_lines(all: Seq<Seq<char>>, pattern: Seq<char>, upto: nat) -> Seq<char>
    decreases upto,
{
    if upto == 0 || upto > all.len() {
        Seq::empty()
    } else if occurs(all[upto - 1], pattern) {
        matching_lines(all, pattern, (upto - 1) as nat) + all[upto - 1] + "\n"@
    } else {
        matching_lines(all, pattern, (upto - 1) as nat)
    }
}

/// The answer of `grep`.
pub open spec fn grep_text(root: NodeView, dir: Seq<char>, parts: Seq<Seq<char>>) -> Seq<char> {
    if parts.len() < 3 {
        "Usage: grep <pattern> <file>\n"@
    } else {
        match file_text(root, dir, parts[2]) {
            FileText::Text(text, _) => matching_lines(
                lines_of(text),
                parts[1],
                lines_of(text).len(),
            ),
            FileText::Binary(_) => "Error: Cannot grep binary file.\n"@,
            FileText::Missing => "Error: File not found.\n"@,
        }
    }
}

/// The lines from number `from` up to number `to`, each followed by a
/// line feed.
pub open spec fn lines_shown(all: Seq<Seq<char>>, from: int, to: int) -> Seq<char>
    decreases to - from,
{
    if from >= to || from < 0 || to > all.len() {
        Seq::empty()
    } else {
        lines_shown(all, from, to - 1) + all[to - 1] + "\n"@
    }
}

/// Number of lines `head` and `tail` show: ten, or the number behind
/// `-n` where it can be read.
pub open spec fn line_count(parts: Seq<Seq<char>>) -> nat {
    if parts.len() > 3 && parts[2] == "-n"@ {
        match parsed_number(parts[3], usize::MAX as nat) {
            Some(n) => n,
            None => 10,
        }
    } else {
        10
    }
}

/// The answer of `head`.
pub open spec fn head_text(root: NodeView, dir: Seq<char>, parts: Seq<Seq<char>>) -> Seq<char> {
    if parts.len() < 2 {
        "Usage: head <file> [-n lines]\n"@
    } else {
        match file_text(root, dir, parts[1]) {
            FileText::Text(text, _) => lines_shown(
                lines_of(text),
                0,
                if line_count(parts) < lines_of(text).len() {
                    line_count(parts) as int
                } else {
                    lines_of(text).len() as int
                },
            ),
            FileText::Binary(_) => Seq::empty(),
            FileText::Missing => "Error: File not found.\n"@,
        }
    }
}

/// The answer of `tail`.
pub open spec fn tail_text(root: NodeView, dir: Seq<char>, parts: Seq<Seq<char>>) -> Seq<char> {
    if parts.len() < 2 {
        "Usage: tail <file> [-n lines]\n"@
    } else {
        match file_text(root, dir, parts[1]) {
            FileText::Text(text, _) => lines_shown(
                lines_of(text),
                if lines_of(text).len() > line_count(parts) {
                    lines_of(text).len() - line_count(parts)
                } else {
                    0
                },
                lines_of(text).len() as int,
            ),
            FileText::Binary(_) => Seq::empty(),
            FileText::Missing => "Error: File not found.\n"@,
        }
    }
}

/// The answer of `wc`: lines, words and bytes of a text file, or the
/// bytes alone of any other.
pub open spec fn wc_text(root: NodeView, dir: Seq<char>, parts: Seq<Seq<char>>) -> Seq<char> {
    if parts.len() < 2 {
        "Usage: wc <file>\n"@
    } else {
        match file_text(root, dir, parts[1]) {
            FileText::Text(text, bytes) => decimal(lines_of(text).len()) + " "@ + decimal(
                words(text).len(),
            ) + " "@ + decimal(bytes) + " "@ + parts[1] + "\n"@,
            FileText::Binary(bytes) => "- - "@ + decimal(bytes) + " "@ + parts[1] + "\n"@,
            FileText::Missing => "Error: File not found.\n"@,
        }
    }
}

/// The answer of `pwd`.
pub open spec fn pwd_text(dir: Seq<char>) -> Seq<char> {
    dir + "\n"@
}

/// The paths among the first `upto` stations of a walk whose node's name
/// holds `pattern`, each followed by a line feed.
pub open spec fn found_paths(stations: Seq<(Seq<char>, NodeView)>, pattern: Seq<char>, upto: nat) -> Seq<
    char,
>
    decreases upto,
{
    if upto == 0 || upto > stations.len() {
        Seq::empty()
    } else if occurs(stations[upto - 1].1.name(), pattern) {
        found_paths(stations, pattern, (upto - 1) as nat) + stations[upto - 1].0 + "\n"@
    } else {
        found_paths(stations, pattern, (upto - 1) as nat)
    }
}

/// The stations of the walk that starts at `path`.
pub open spec fn walk_from(root: NodeView, path: Seq<char>) -> Seq<(Seq<char>, NodeView)> {
    match root.descend(crate::fs::path_parts(path)) {
        Some(start) => walked(path, start),
        None => Seq::empty(),
    }
}

/// The answer of `find`.
pub open spec fn find_text(root: NodeView, parts: Seq<Seq<char>>) -> Seq<char> {
    if parts.len() < 2 {
        "Usage: find <pattern>\n"@
    } else {
        found_paths(walk_from(root, "/"@), parts[1], walk_from(root, "/"@).len())
    }
}

/// Bytes of the files among the first `upto` stations of a walk.
pub open spec fn total_size(stations: Seq<(Seq<char>, NodeView)>, upto: nat) -> nat
    decreases upto,
{
    if upto == 0 || upto > stations.len() {
        0
    } else {
        total_size(stations, (upto - 1) as nat) + stations[upto - 1].1.data().len()
    }
}

/// The answer of `du` in directory `dir`.
pub open spec fn du_text(root: NodeView, dir: Seq<char>) -> Seq<char> {
    "Total size: "@ + decimal(total_size(walk_from(root, dir), walk_from(root, dir).len()))
        + " bytes\n"@
}

/// The answer of `stat`.
pub open spec fn stat_text(root: NodeView, dir: Seq<char>, parts: Seq<Seq<char>>) -> Seq<char> {
    if parts.len() < 2 {
        "Usage: stat <file>\n"@
    } else {
        match root.entry_at(dir, parts[1]) {
            Some(node) => "Name: "@ + node.name() + "\n"@ + (if node.is_dir() {
                "Type: Directory\n"@ + "Children: "@ + decimal(node.children().len()) + "\n"@
            } else {
                "Type: File\n"@ + "Size: "@ + decimal(node.data().len()) + " bytes\n"@
            }),
            None => "Error: Not found.\n"@,
        }
    }
}

/// What `echo` prints: its arguments with one blank between two.
pub open spec fn echo_text(parts: Seq<Seq<char>>) -> Seq<char> {
    joined(parts, 1, parts.len() as int) + "\n"@
}

/// The answer of `ip`.
pub open spec fn ip_text(ip: Seq<u8>) -> Seq<char> {
    "IP: "@ + decimal(ip[0] as nat) + "."@ + decimal(ip[1] as nat) + "."@ + decimal(ip[2] as nat)
        + "."@ + decimal(ip[3] as nat) + "\n"@
}

/// The answer to a command that is not known.
pub open spec fn unknown_text() -> Seq<char> {
    "Unknown command.\n"@
}

/// The file called `name` in directory `dir`, read as text.
pub enum FileContent {
    Missing,
    Binary(usize),
    Text(Vec<char>, usize),
}

impl FileContent {
    pub open spec fn view(self) -> FileText {
        match self {
            FileContent::Missing => FileText::Missing,
            FileContent::Binary(bytes) => FileText::Binary(bytes as nat),
            FileContent::Text(text, bytes) => FileText::Text(text@, bytes as nat),
        }
    }
}

/// Reads the file called `name` in directory `dir` as text.
pub fn read_text(root: &Node, dir: &str, name: &Vec<char>) -> (r: FileContent)
    ensures
        r.view() == file_text(root@, dir@, name@),
{
    let name = to_string(name);
    match read(root, dir, name.as_str()) {
        Some(data) => {
            let bytes = data.len();
            match string_from_utf8(data) {
                Some(s) => {
                    proof {
                        vstd::utf8::encode_utf8_decode_utf8(s@);
                    }
                    FileContent::Text(chars_of(s.as_str()), bytes)
                },
                None => FileContent::Binary(bytes),
            }
        },
        None => FileContent::Missing,
    }
}

/// The answer of `wifi`.
pub fn wifi(parts: &Vec<Vec<char>>) -> (s: String)
    ensures
        s@ == wifi_text(part_views(parts@)),
{
    let mut s = String::new();
    if parts.len() > 1 && spells(&parts[1], "list") {
        s.append("Scanning for networks...\n");
        s.append("SSID              SIGNAL  SEC   CH\n");
        s.append("----------------------------------\n");
        s.append("Home_5G           98%     WPA3  36\n");
        s.append("Chronos_Internal  82%     WPA2  1\n");
        s.append("Office_Guest      65%     Open  11\n");
        s.append("Starbucks_WiFi    40%     WPA2  6\n");
        s.append("Neighbour_4       22%     WPA2  11\n");
        proof {
            assert(s@ =~= wifi_list_text());
        }
    } else if parts.len() > 2 && spells(&parts[1], "connect") {
        s.append("Connecting to '");
        push_chars(&mut s, &parts[2]);
        s.append("'...\n");
        s.append("  [.] Handshake\n");
        s.append("  [..] Authenticating\n");
        s.append("  [...] Obtaining IP Address\n");
        s.append("Connected! IP: 192.168.1.105 (DNS: 1.1.1.1)\n");
        proof {
            assert(s@ =~= wifi_connect_text(parts@[2]@));
        }
    } else {
        s.append("Usage: wifi list | wifi connect <ssid>\n");
        proof {
            assert(s@ =~= "Usage: wifi list | wifi connect <ssid>\n"@);
        }
    }
    s
}

/// The answer of `install`.
pub fn install() -> (s: String)
    ensures
        s@ == install_text(),
{
    let mut s = String::new();
    s.append("Initializing Chronos Setup...\n");
    s.append("  [####                ] 20% - Copying Core Files\n");
    s.append("  [########            ] 40% - Configuring Drivers\n");
    s.append("  [############        ] 60% - Setting up User Environment\n");
    s.append("  [################    ] 80% - Finalizing System\n");
    s.append("  [####################] 100% - Done!\n");
    s.append("System installed successfully. Please reboot.\n");
    proof {
        assert(s@ =~= install_text());
    }
    s
}

/// The answer of `ls` in directory `dir`.
pub fn list(root: &Node, dir: &str) -> (s: String)
    ensures
        s@ == ls_text(root@, dir@),
{
    let mut s = String::new();
    match ls(root, dir) {
        Some(items) => {
            let mut i: usize = 0;
            while i < items.len()
                invariant
                    i <= items.len(),
                    s@ == ls_lines(listing_view(items@), i as nat),
                decreases items.len() - i,
            {
                if items[i].1 {
                    s.append("[DIR]  ");
                } else {
                    s.append("[FILE] ");
                }
                s.append(items[i].0.as_str());
                push_char(&mut s, '\n');
                i = i + 1;
                proof {
                    assert(s@ =~= ls_lines(listing_view(items@), i as nat));
                }
            }
        },
        None => {
            s.append("Error: Could not list directory.\n");
            proof {
                assert(s@ =~= "Error: Could not list directory.\n"@);
            }
        },
    }
    s
}

/// The answer of `cat`.
pub fn cat(root: &Node, dir: &str, parts: &Vec<Vec<char>>) -> (s: String)
    ensures
        s@ == cat_text(root@, dir@, part_views(parts@)),
{
    let mut s = String::new();
    if parts.len() < 2 {
        s.append("Usage: cat <file>\n");
    } else {
        match read_text(root, dir, &parts[1]) {
            FileContent::Text(text, _) => {
                push_chars(&mut s, &text);
                s.append("\n");
            },
            FileContent::Binary(_) => {
                s.append("[Binary Data]\n");
            },
            FileContent::Missing => {
                s.append("Error: File not found.\n");
            },
        }
    }
    proof {
        assert(s@ =~= cat_text(root@, dir@, part_views(parts@)));
    }
    s
}

/// The answer of `grep`.
pub fn grep(root: &Node, dir: &str, parts: &Vec<Vec<char>>) -> (s: String)
    ensures
        s@ == grep_text(root@, dir@, part_views(parts@)),
{
    let mut s = String::new();
    if parts.len() < 3 {
        s.append("Usage: grep <pattern> <file>\n");
        proof {
            assert(s@ =~= grep_text(root@, dir@, part_views(parts@)));
        }
    } else {
        match read_text(root, dir, &parts[2]) {
            FileContent::Text(text, _) => {
                let all = lines(&text);
                let mut i: usize = 0;
                while i < all.len()
                    invariant
                        i <= all.len(),
                        parts.len() >= 3,
                        s@ == matching_lines(part_views(all@), parts@[1]@, i as nat),
                    decreases all.len() - i,
                {
                    if contains(&all[i], &parts[1]) {
                        push_chars(&mut s, &all[i]);
                        s.append("\n");
                    }
                    i = i + 1;
                    proof {
                        assert(s@ =~= matching_lines(part_views(all@), parts@[1]@, i as nat));
                    }
                }
            },
            FileContent::Binary(_) => {
                s.append("Error: Cannot grep binary file.\n");
                proof {
                    assert(s@ =~= "Error: Cannot grep binary file.\n"@);
                }
            },
            FileContent::Missing => {
                s.append("Error: File not found.\n");
                proof {
                    assert(s@ =~= "Error: File not found.\n"@);
                }
            },
        }
    }
    s
}

/// Number of lines `head` and `tail` show.
fn count_option(parts: &Vec<Vec<char>>) -> (n: usize)
    ensures
        n == line_count(part_views(parts@)),
{
    if parts.len() > 3 && spells(&parts[2], "-n") {
        match parse_usize(&parts[3]) {
            Some(n) => n,
            None => 10,
        }
    } else {
        10
    }
}

/// Appends the lines from number `from` up to number `to`.
fn push_lines(s: &mut String, all: &Vec<Vec<char>>, from: usize, to: usize)
    requires
        from <= to <= all.len(),
    ensures
        final(s)@ == old(s)@ + lines_shown(part_views(all@), from as int, to as int),
{
    let mut i = from;
    proof {
        assert(s@ =~= old(s)@ + lines_shown(part_views(all@), from as int, from as int));
    }
    while i < to
        invariant
            from <= i <= to <= all.len(),
            s@ == old(s)@ + lines_shown(part_views(all@), from as int, i as int),
        decreases to - i,
    {
        push_chars(s, &all[i]);
        s.append("\n");
        i = i + 1;
        proof {
            assert(s@ =~= old(s)@ + lines_shown(part_views(all@), from as int, i as int));
        }
    }
}

/// The answer of `head`.
pub fn head(root: &Node, dir: &str, parts: &Vec<Vec<char>>) -> (s: String)
    ensures
        s@ == head_text(root@, dir@, part_views(parts@)),
{
    let mut s = String::new();
    if parts.len() < 2 {
        s.append("Usage: head <file> [-n lines]\n");
    } else {
        let n = count_option(parts);
        match read_text(root, dir, &parts[1]) {
            FileContent::Text(text, _) => {
                let all = lines(&text);
                let shown = if n < all.len() {
                    n
                } else {
                    all.len()
                };
                push_lines(&mut s, &all, 0, shown);
            },
            FileContent::Binary(_) => {},
            FileContent::Missing => {
                s.append("Error: File not found.\n");
            },
        }
    }
    proof {
        assert(s@ =~= head_text(root@, dir@, part_views(parts@)));
    }
    s
}

/// The answer of `tail`.
pub fn tail(root: &Node, dir: &str, parts: &Vec<Vec<char>>) -> (s: String)
    ensures
        s@ == tail_text(root@, dir@, part_views(parts@)),
{
    let mut s = String::new();
    if parts.len() < 2 {
        s.append("Usage: tail <file> [-n lines]\n");
    } else {
        let n = count_option(parts);
        match read_text(root, dir, &parts[1]) {
            FileContent::Text(text, _) => {
                let all = lines(&text);
                let start = if all.len() > n {
                    all.len() - n
                } else {
                    0
                };
                push_lines(&mut s, &all, start, all.len());
            },
            FileContent::Binary(_) => {},
            FileContent::Missing => {
                s.append("Error: File not found.\n");
            },
        }
    }
    proof {
        assert(s@ =~= tail_text(root@, dir@, part_views(parts@)));
    }
    s
}

/// The answer of `wc`.
pub fn wc(root: &Node, dir: &str, parts: &Vec<Vec<char>>) -> (s: String)
    ensures
        s@ == wc_text(root@, dir@, part_views(parts@)),
{
    let mut s = String::new();
    if parts.len() < 2 {
        s.append("Usage: wc <file>\n");
    } else {
        match read_text(root, dir, &parts[1]) {
            FileContent::Text(text, bytes) => {
                let all = lines(&text);
                let found = split_whitespace(&text);
                let line_total = all.len();
                let word_total = found.len();
                proof {
                    assert(part_views(all@).len() == all@.len());
                    assert(part_views(found@).len() == found@.len());
                }
                push_decimal_wide(&mut s, line_total as u128);
                s.append(" ");
                push_decimal_wide(&mut s, word_total as u128);
                s.append(" ");
                push_decimal_wide(&mut s, bytes as u128);
                s.append(" ");
                push_chars(&mut s, &parts[1]);
                s.append("\n");
            },
            FileContent::Binary(bytes) => {
                s.append("- - ");
                push_decimal_wide(&mut s, bytes as u128);
                s.append(" ");
                push_chars(&mut s, &parts[1]);
                s.append("\n");
            },
            FileContent::Missing => {
                s.append("Error: File not found.\n");
            },
        }
    }
    proof {
        assert(s@ =~= wc_text(root@, dir@, part_views(parts@)));
    }
    s
}

/// The answer of `find`.
pub fn find(root: &Node, parts: &Vec<Vec<char>>) -> (s: String)
    ensures
        s@ == find_text(root@, part_views(parts@)),
{
    let mut s = String::new();
    if parts.len() < 2 {
        s.append("Usage: find <pattern>\n");
        proof {
            assert(s@ =~= "Usage: find <pattern>\n"@);
        }
    } else {
        let stations = walk_tree(root, "/");
        let mut i: usize = 0;
        while i < stations.len()
            invariant
                i <= stations.len(),
                parts.len() >= 2,
                s@ == found_paths(walk_view(stations@), parts@[1]@, i as nat),
            decreases stations.len() - i,
        {
            let name = chars_of(stations[i].1.name());
            if contains(&name, &parts[1]) {
                s.append(stations[i].0.as_str());
                s.append("\n");
            }
            i = i + 1;
            proof {
                assert(s@ =~= found_paths(walk_view(stations@), parts@[1]@, i as nat));
            }
        }
    }
    s
}

/// The answer of `du` in directory `dir`.
pub fn du(root: &Node, dir: &str) -> (s: String)
    ensures
        s@ == du_text(root@, dir@),
{
    let stations = walk_tree(root, dir);
    let mut total: u128 = 0;
    let mut i: usize = 0;
    while i < stations.len()
        invariant
            i <= stations.len(),
            total == total_size(walk_view(stations@), i as nat),
            total <= i * usize::MAX,
        decreases stations.len() - i,
    {
        proof {
            crate::fs::lemma_directory_views();
            assert((i + 1) * usize::MAX == i * usize::MAX + usize::MAX) by (nonlinear_arith);
            assert(i * usize::MAX <= usize::MAX * usize::MAX) by (nonlinear_arith)
                requires
                    0 <= i <= usize::MAX,
            ;
        }
        match stations[i].1 {
            Node::File { data, .. } => {
                total = total + data.len() as u128;
            },
            Node::Directory { .. } => {},
        }
        i = i + 1;
    }
    let mut s = String::new();
    s.append("Total size: ");
    push_decimal_wide(&mut s, total);
    s.append(" bytes\n");
    proof {
        assert(s@ =~= du_text(root@, dir@));
    }
    s
}

/// The answer of `stat`.
pub fn stat(root: &Node, dir: &str, parts: &Vec<Vec<char>>) -> (s: String)
    ensures
        s@ == stat_text(root@, dir@, part_views(parts@)),
{
    let mut s = String::new();
    if parts.len() < 2 {
        s.append("Usage: stat <file>\n");
    } else {
        let name = to_string(&parts[1]);
        match get_node_info(root, dir, name.as_str()) {
            Some(info) => {
                s.append("Name: ");
                s.append(info.name.as_str());
                s.append("\n");
                if info.is_dir {
                    s.append("Type: Directory\n");
                    s.append("Children: ");
                    push_decimal_wide(&mut s, info.child_count as u128);
                    s.append("\n");
                } else {
                    s.append("Type: File\n");
                    s.append("Size: ");
                    push_decimal_wide(&mut s, info.size as u128);
                    s.append(" bytes\n");
                }
            },
            None => {
                s.append("Error: Not found.\n");
            },
        }
    }
    proof {
        assert(s@ =~= stat_text(root@, dir@, part_views(parts@)));
    }
    s
}

/// What `echo` prints.
pub fn echo(parts: &Vec<Vec<char>>) -> (s: String)
    requires
        parts.len() >= 1,
    ensures
        s@ == echo_text(part_views(parts@)),
{
    let text = join(parts, 1, parts.len());
    let mut s = String::new();
    push_chars(&mut s, &text);
    s.append("\n");
    proof {
        assert(s@ =~= echo_text(part_views(parts@)));
    }
    s
}

/// The answer of `ip`.
pub fn ip(address: [u8; 4]) -> (s: String)
    ensures
        s@ == ip_text(address@),
{
    let mut s = String::new();
    s.append("IP: ");
    push_decimal(&mut s, address[0] as u64);
    s.append(".");
    push_decimal(&mut s, address[1] as u64);
    s.append(".");
    push_decimal(&mut s, address[2] as u64);
    s.append(".");
    push_decimal(&mut s, address[3] as u64);
    s.append("\n");
    proof {
        assert(s@ =~= ip_text(address@));
    }
    s
}

/// What a command that changes the tree answers, and whether the tree is
/// to be saved to disk afterwards.
pub struct Change {
    pub message: String,
    pub save: bool,
}

/// What a command that changes the tree does: the tree afterwards, the
/// answer, and whether the tree is to be saved.
pub struct Changed {
    pub root: NodeView,
    pub message: Seq<char>,
    pub save: bool,
}

/// A message about the entry called `name`: `before`, the name, `after`.
pub open spec fn about(before: Seq<char>, name: Seq<char>, after: Seq<char>) -> Seq<char> {
    before + name + after
}

/// What `mkdir` does.
pub open spec fn mkdir_change(root: NodeView, dir: Seq<char>, parts: Seq<Seq<char>>) -> Changed {
    if parts.len() < 2 {
        Changed { root, message: "Usage: mkdir <name>\n"@, save: false }
    } else if root.can_mkdir(dir, parts[1]) {
        Changed {
            root: root.after_mkdir(dir, parts[1]),
            message: about("Directory '"@, parts[1], "' created.\n"@),
            save: true,
        }
    } else {
        Changed { root, message: "Error: Could not create directory.\n"@, save: false }
    }
}

/// What `rm` does.
pub open spec fn rm_change(root: NodeView, dir: Seq<char>, parts: Seq<Seq<char>>) -> Changed {
    if parts.len() < 2 {
        Changed { root, message: "Usage: rm <name>\n"@, save: false }
    } else if root.entry_at(dir, parts[1]) is Some {
        Changed {
            root: root.after_rm(dir, parts[1]),
            message: about("Removed '"@, parts[1], "'.\n"@),
            save: true,
        }
    } else {
        Changed { root, message: "Error: Could not remove item.\n"@, save: false }
    }
}

/// What `touch` does.
pub open spec fn touch_change(root: NodeView, dir: Seq<char>, parts: Seq<Seq<char>>) -> Changed {
    if parts.len() < 2 {
        Changed { root, message: "Usage: touch <file>\n"@, save: false }
    } else if root.dir_at(dir) is Some {
        Changed {
            root: root.after_touch(dir, parts[1], Seq::empty()),
            message: about("File '"@, parts[1], "' created.\n"@),
            save: true,
        }
    } else {
        Changed { root, message: "Error: Could not create file.\n"@, save: false }
    }
}

/// What `write` does: the file gets the words behind its name, with one
/// blank between two.
pub open spec fn write_change(root: NodeView, dir: Seq<char>, parts: Seq<Seq<char>>) -> Changed {
    if parts.len() < 3 {
        Changed { root, message: "Usage: write <file> <text>\n"@, save: false }
    } else if root.dir_at(dir) is Some {
        Changed {
            root: root.after_touch(
                dir,
                parts[1],
                vstd::utf8::encode_utf8(joined(parts, 2, parts.len() as int)),
            ),
            message: about("File '"@, parts[1], "' written.\n"@),
            save: true,
        }
    } else {
        Changed { root, message: "Error: Could not write file.\n"@, save: false }
    }
}

/// What `cp` does.
pub open spec fn cp_change(root: NodeView, dir: Seq<char>, parts: Seq<Seq<char>>) -> Changed {
    if parts.len() < 3 {
        Changed { root, message: "Usage: cp <src> <dest>\n"@, save: false }
    } else if root.entry_at(dir, parts[1]) is Some && root.dir_at(dir) is Some {
        Changed {
            root: root.after_copy(dir, parts[1], dir, parts[2]),
            message: "Copied '"@ + parts[1] + "' to '"@ + parts[2] + "'.\n"@,
            save: true,
        }
    } else {
        Changed {
            root: root.after_copy(dir, parts[1], dir, parts[2]),
            message: "Error: Could not copy.\n"@,
            save: false,
        }
    }
}

/// What `mv` does.
pub open spec fn mv_change(root: NodeView, dir: Seq<char>, parts: Seq<Seq<char>>) -> Changed {
    if parts.len() < 3 {
        Changed { root, message: "Usage: mv <src> <dest>\n"@, save: false }
    } else if root.entry_at(dir, parts[1]) is Some && root.after_rm(dir, parts[1]).dir_at(dir)
        is Some {
        Changed {
            root: root.after_move(dir, parts[1], dir, parts[2]),
            message: "Moved '"@ + parts[1] + "' to '"@ + parts[2] + "'.\n"@,
            save: true,
        }
    } else {
        Changed {
            root: root.after_move(dir, parts[1], dir, parts[2]),
            message: "Error: Could not move.\n"@,
            save: false,
        }
    }
}

/// Index of the first part from `from` on that redirects output: `>` or
/// `>>`.
pub open spec fn redirect_from(parts: Seq<Seq<char>>, from: int) -> Option<int>
    decreases parts.len() - from,
{
    if from < 0 || from >= parts.len() {
        None
    } else if parts[from] == ">"@ || parts[from] == ">>"@ {
        Some(from)
    } else {
        redirect_from(parts, from + 1)
    }
}

/// What `echo` does with its output redirected at part `idx`: the words
/// in front of the redirection, followed by a line feed, become the file
/// named behind it, or are added to it for `>>`.
pub open spec fn echo_change(root: NodeView, dir: Seq<char>, parts: Seq<Seq<char>>, idx: int) -> Changed {
    if idx + 1 < parts.len() {
        let text = vstd::utf8::encode_utf8(joined(parts, 1, idx)) + seq![10u8];
        let kept = if parts[idx] == ">>"@ {
            match root.file_at(dir, parts[idx + 1]) {
                Some(data) => data,
                None => Seq::empty(),
            }
        } else {
            Seq::empty()
        };
        if root.dir_at(dir) is Some {
            Changed {
                root: root.after_touch(dir, parts[idx + 1], kept + text),
                message: Seq::empty(),
                save: true,
            }
        } else {
            Changed { root, message: "Error: Could not write to file.\n"@, save: false }
        }
    } else {
        Changed { root, message: "Usage: echo <text> [>|>> file]\n"@, save: false }
    }
}

fn message_about(before: &str, name: &Vec<char>, after: &str) -> (s: String)
    ensures
        s@ == about(before@, name@, after@),
{
    let mut s = String::new();
    s.append(before);
    push_chars(&mut s, name);
    s.append(after);
    proof {
        assert(s@ =~= about(before@, name@, after@));
    }
    s
}

fn plain(text: &str) -> (s: String)
    ensures
        s@ == text@,
{
    text.to_owned()
}

/// `mkdir`: makes a directory in directory `dir`.
pub fn make_dir(root: &mut Node, dir: &str, parts: &Vec<Vec<char>>) -> (r: Change)
    ensures
        (Changed { root: final(root)@, message: r.message@, save: r.save }) == mkdir_change(
            old(root)@,
            dir@,
            part_views(parts@),
        ),
{
    if parts.len() < 2 {
        return Change { message: plain("Usage: mkdir <name>\n"), save: false };
    }
    let name = to_string(&parts[1]);
    if mkdir(root, dir, name.as_str()) {
        Change { message: message_about("Directory '", &parts[1], "' created.\n"), save: true }
    } else {
        Change { message: plain("Error: Could not create directory.\n"), save: false }
    }
}

/// `rm`: removes an entry of directory `dir`.
pub fn remove(root: &mut Node, dir: &str, parts: &Vec<Vec<char>>) -> (r: Change)
    ensures
        (Changed { root: final(root)@, message: r.message@, save: r.save }) == rm_change(
            old(root)@,
            dir@,
            part_views(parts@),
        ),
{
    if parts.len() < 2 {
        return Change { message: plain("Usage: rm <name>\n"), save: false };
    }
    let name = to_string(&parts[1]);
    if rm(root, dir, name.as_str()) {
        Change { message: message_about("Removed '", &parts[1], "'.\n"), save: true }
    } else {
        proof {
            crate::fs::lemma_rm_misses(old(root)@, dir@, parts@[1]@);
        }
        Change { message: plain("Error: Could not remove item.\n"), save: false }
    }
}

/// `touch`: makes an empty file in directory `dir`.
pub fn make_file(root: &mut Node, dir: &str, parts: &Vec<Vec<char>>) -> (r: Change)
    ensures
        (Changed { root: final(root)@, message: r.message@, save: r.save }) == touch_change(
            old(root)@,
            dir@,
            part_views(parts@),
        ),
{
    if parts.len() < 2 {
        return Change { message: plain("Usage: touch <file>\n"), save: false };
    }
    let name = to_string(&parts[1]);
    if touch(root, dir, name.as_str(), Vec::new()) {
        Change { message: message_about("File '", &parts[1], "' created.\n"), save: true }
    } else {
        Change { message: plain("Error: Could not create file.\n"), save: false }
    }
}

/// `write`: writes words into a file of directory `dir`.
pub fn write_file(root: &mut Node, dir: &str, parts: &Vec<Vec<char>>) -> (r: Change)
    ensures
        (Changed { root: final(root)@, message: r.message@, save: r.save }) == write_change(
            old(root)@,
            dir@,
            part_views(parts@),
        ),
{
    if parts.len() < 3 {
        return Change { message: plain("Usage: write <file> <text>\n"), save: false };
    }
    let name = to_string(&parts[1]);
    let text = to_string(&join(parts, 2, parts.len()));
    if touch(root, dir, name.as_str(), text.as_str().as_bytes_vec()) {
        Change { message: message_about("File '", &parts[1], "' written.\n"), save: true }
    } else {
        Change { message: plain("Error: Could not write file.\n"), save: false }
    }
}

fn message_pair(before: &str, first: &Vec<char>, between: &str, second: &Vec<char>, after: &str) -> (s:
    String)
    ensures
        s@ == before@ + first@ + between@ + second@ + after@,
{
    let mut s = String::new();
    s.append(before);
    push_chars(&mut s, first);
    s.append(between);
    push_chars(&mut s, second);
    s.append(after);
    proof {
        assert(s@ =~= before@ + first@ + between@ + second@ + after@);
    }
    s
}

/// `cp`: copies an entry of directory `dir` within the directory.
pub fn copy(root: &mut Node, dir: &str, parts: &Vec<Vec<char>>) -> (r: Change)
    ensures
        (Changed { root: final(root)@, message: r.message@, save: r.save }) == cp_change(
            old(root)@,
            dir@,
            part_views(parts@),
        ),
{
    if parts.len() < 3 {
        return Change { message: plain("Usage: cp <src> <dest>\n"), save: false };
    }
    let src = to_string(&parts[1]);
    let dest = to_string(&parts[2]);
    if copy_node(root, dir, src.as_str(), dir, dest.as_str()) {
        Change {
            message: message_pair("Copied '", &parts[1], "' to '", &parts[2], "'.\n"),
            save: true,
        }
    } else {
        Change { message: plain("Error: Could not copy.\n"), save: false }
    }
}

/// `mv`: moves an entry of directory `dir` within the directory.
pub fn rename(root: &mut Node, dir: &str, parts: &Vec<Vec<char>>) -> (r: Change)
    ensures
        (Changed { root: final(root)@, message: r.message@, save: r.save }) == mv_change(
            old(root)@,
            dir@,
            part_views(parts@),
        ),
{
    if parts.len() < 3 {
        return Change { message: plain("Usage: mv <src> <dest>\n"), save: false };
    }
    let src = to_string(&parts[1]);
    let dest = to_string(&parts[2]);
    if move_node(root, dir, src.as_str(), dir, dest.as_str()) {
        Change {
            message: message_pair("Moved '", &parts[1], "' to '", &parts[2], "'.\n"),
            save: true,
        }
    } else {
        Change { message: plain("Error: Could not move.\n"), save: false }
    }
}

/// Index of the first part that redirects output.
pub fn find_redirect(parts: &Vec<Vec<char>>) -> (r: Option<usize>)
    ensures
        match r {
            Some(i) => redirect_from(part_views(parts@), 0) == Some(i as int) && i < parts.len()
                && (part_views(parts@)[i as int] == ">"@ || part_views(parts@)[i as int]
                == ">>"@),
            None => redirect_from(part_views(parts@), 0) is None,
        },
{
    let mut i: usize = 0;
    while i < parts.len()
        invariant
            i <= parts.len(),
            redirect_from(part_views(parts@), 0) == redirect_from(part_views(parts@), i as int),
        decreases parts.len() - i,
    {
        if spells(&parts[i], ">") || spells(&parts[i], ">>") {
            return Some(i);
        }
        i = i + 1;
    }
    None
}

/// `echo` with its output redirected at part `idx`.
pub fn echo_to_file(root: &mut Node, dir: &str, parts: &Vec<Vec<char>>, idx: usize) -> (r: Change)
    requires
        1 <= idx < parts.len(),
    ensures
        (Changed { root: final(root)@, message: r.message@, save: r.save }) == echo_change(
            old(root)@,
            dir@,
            part_views(parts@),
            idx as int,
        ),
{
    if idx + 1 < parts.len() {
        let text = to_string(&join(parts, 1, idx));
        let filename = to_string(&parts[idx + 1]);
        let mut final_data: Vec<u8> = if spells(&parts[idx], ">>") {
            match read(root, dir, filename.as_str()) {
                Some(data) => data,
                None => Vec::new(),
            }
        } else {
            Vec::new()
        };
        let ghost kept = final_data@;
        let bytes = text.as_str().as_bytes_vec();
        let mut k: usize = 0;
        while k < bytes.len()
            invariant
                k <= bytes.len(),
                final_data@ == kept + bytes@.take(k as int),
            decreases bytes.len() - k,
        {
            final_data.push(bytes[k]);
            k = k + 1;
            proof {
                assert(final_data@ =~= kept + bytes@.take(k as int));
            }
        }
        final_data.push(10u8);
        proof {
            assert(bytes@.take(bytes.len() as int) =~= bytes@);
            assert(final_data@ =~= kept + (bytes@ + seq![10u8]));
        }
        if touch(root, dir, filename.as_str(), final_data) {
            Change { message: String::new(), save: true }
        } else {
            Change { message: plain("Error: Could not write to file.\n"), save: false }
        }
    } else {
        Change { message: plain("Usage: echo <text> [>|>> file]\n"), save: false }
    }
}

/// Index behind the last character before `to` that is no slash.
pub open spec fn without_slashes(dir: Seq<char>, to: int) -> int
    decreases to,
{
    if 0 < to <= dir.len() && dir[to - 1] == '/' {
        without_slashes(dir, to - 1)
    } else {
        to
    }
}

/// Index of the last slash before `to`, if there is one.
pub open spec fn last_slash(dir: Seq<char>, to: int) -> Option<int>
    decreases to,
{
    if to <= 0 || to > dir.len() {
        None
    } else if dir[to - 1] == '/' {
        Some(to - 1)
    } else {
        last_slash(dir, to - 1)
    }
}

/// The directory above `dir`: `dir` up to the last slash that is followed
/// by a name, without that slash unless it is the first character. The
/// root directory, and a path without such a slash, is its own parent.
pub open spec fn parent_dir(dir: Seq<char>) -> Seq<char> {
    if dir == "/"@ {
        dir
    } else {
        match last_slash(dir, without_slashes(dir, dir.len() as int)) {
            Some(idx) => if idx + 1 > 1 {
                dir.take(idx)
            } else {
                dir.take(idx + 1)
            },
            None => dir,
        }
    }
}

/// The directory `cd` goes to, and its answer.
pub open spec fn cd_change(root: NodeView, dir: Seq<char>, parts: Seq<Seq<char>>) -> (
    Seq<char>,
    Seq<char>,
) {
    if parts.len() < 2 {
        (dir, "Usage: cd <path>\n"@)
    } else if parts[1] == ".."@ {
        (parent_dir(dir), Seq::empty())
    } else if parts[1] == "/"@ {
        ("/"@, Seq::empty())
    } else if root.dir_at(crate::fs::child_path(dir, parts[1])) is Some {
        (crate::fs::child_path(dir, parts[1]), Seq::empty())
    } else {
        (dir, "Error: Directory not found.\n"@)
    }
}

/// The directory above `dir`.
pub fn parent(dir: &Vec<char>) -> (r: Vec<char>)
    ensures
        r@ == parent_dir(dir@),
{
    proof {
        reveal_strlit("/");
    }
    let mut r: Vec<char> = Vec::new();
    if spells(dir, "/") {
        r.push('/');
        proof {
            assert(r@ =~= dir@);
        }
        return r;
    }
    let mut end: usize = dir.len();
    while end > 0 && dir[end - 1] == '/'
        invariant
            end <= dir.len(),
            without_slashes(dir@, dir.len() as int) == without_slashes(dir@, end as int),
        decreases end,
    {
        end = end - 1;
    }
    let mut at: usize = end;
    while at > 0 && dir[at - 1] != '/'
        invariant
            at <= end <= dir.len(),
            last_slash(dir@, end as int) == last_slash(dir@, at as int),
        decreases at,
    {
        at = at - 1;
    }
    if at == 0 {
        let mut i: usize = 0;
        while i < dir.len()
            invariant
                i <= dir.len(),
                r@ == dir@.take(i as int),
            decreases dir.len() - i,
        {
            r.push(dir[i]);
            i = i + 1;
            proof {
                assert(r@ =~= dir@.take(i as int));
            }
        }
        proof {
            assert(dir@.take(dir.len() as int) =~= dir@);
        }
        return r;
    }
    let idx = at - 1;
    let keep = if idx + 1 > 1 {
        idx
    } else {
        idx + 1
    };
    let mut i: usize = 0;
    while i < keep
        invariant
            i <= keep <= dir.len(),
            r@ == dir@.take(i as int),
        decreases keep - i,
    {
        r.push(dir[i]);
        i = i + 1;
        proof {
            assert(r@ =~= dir@.take(i as int));
        }
    }
    r
}

/// `cd`: the directory to go to, and the answer.
pub fn change_dir(root: &Node, dir: &str, parts: &Vec<Vec<char>>) -> (r: (String, String))
    ensures
        (r.0@, r.1@) == cd_change(root@, dir@, part_views(parts@)),
{
    proof {
        reveal_strlit("/");
    }
    if parts.len() < 2 {
        return (dir.to_owned(), plain("Usage: cd <path>\n"));
    }
    if spells(&parts[1], "..") {
        let current = chars_of(dir);
        let up = parent(&current);
        return (to_string(&up), String::new());
    }
    if spells(&parts[1], "/") {
        return (plain("/"), String::new());
    }
    let mut new_path = String::new();
    if !crate::strings::same_text(dir, "/") {
        new_path.append(dir);
    }
    new_path.append("/");
    push_chars(&mut new_path, &parts[1]);
    proof {
        assert("/"@ =~= seq!['/']);
        assert(new_path@ =~= crate::fs::child_path(dir@, parts@[1]@));
    }
    if ls(root, new_path.as_str()).is_some() {
        (new_path, String::new())
    } else {
        (dir.to_owned(), plain("Error: Directory not found.\n"))
    }
}

/// The answer of a command that only reads; `None` for any other
/// command. `echo` only reads unless its output is redirected.
pub open spec fn reply_for(root: NodeView, dir: Seq<char>, ip: Seq<u8>, parts: Seq<Seq<char>>) -> Option<
    Seq<char>,
> {
    let name = parts[0];
    if name == "help"@ {
        Some(help_text())
    } else if name == "wifi"@ {
        Some(wifi_text(parts))
    } else if name == "install"@ {
        Some(install_text())
    } else if name == "ls"@ {
        Some(ls_text(root, dir))
    } else if name == "cat"@ {
        Some(cat_text(root, dir, parts))
    } else if name == "grep"@ {
        Some(grep_text(root, dir, parts))
    } else if name == "pwd"@ {
        Some(pwd_text(dir))
    } else if name == "find"@ {
        Some(find_text(root, parts))
    } else if name == "du"@ {
        Some(du_text(root, dir))
    } else if name == "stat"@ {
        Some(stat_text(root, dir, parts))
    } else if name == "head"@ {
        Some(head_text(root, dir, parts))
    } else if name == "tail"@ {
        Some(tail_text(root, dir, parts))
    } else if name == "wc"@ {
        Some(wc_text(root, dir, parts))
    } else if name == "ip"@ {
        Some(ip_text(ip))
    } else if name == "echo"@ && redirect_from(parts, 0) is None {
        Some(echo_text(parts))
    } else {
        None
    }
}

/// What a command that changes the tree does; `None` for any other
/// command.
pub open spec fn change_for(root: NodeView, dir: Seq<char>, parts: Seq<Seq<char>>) -> Option<Changed> {
    let name = parts[0];
    if name == "mkdir"@ {
        Some(mkdir_change(root, dir, parts))
    } else if name == "rm"@ {
        Some(rm_change(root, dir, parts))
    } else if name == "write"@ {
        Some(write_change(root, dir, parts))
    } else if name == "touch"@ {
        Some(touch_change(root, dir, parts))
    } else if name == "cp"@ {
        Some(cp_change(root, dir, parts))
    } else if name == "mv"@ {
        Some(mv_change(root, dir, parts))
    } else if name == "echo"@ && redirect_from(parts, 0) is Some {
        Some(echo_change(root, dir, parts, redirect_from(parts, 0).unwrap()))
    } else {
        None
    }
}

/// The view of an answer that may be missing.
pub open spec fn answer_view(answer: Option<String>) -> Option<Seq<char>> {
    match answer {
        Some(s) => Some(s@),
        None => None,
    }
}

/// Answers a command that only reads.
pub fn reply(root: &Node, dir: &str, ip_address: [u8; 4], parts: &Vec<Vec<char>>) -> (r: Option<String>)
    requires
        parts.len() >= 1,
    ensures
        answer_view(r) == reply_for(root@, dir@, ip_address@, part_views(parts@)),
{
    let name = &parts[0];
    proof {
        assert(part_views(parts@)[0] == parts@[0]@);
    }
    if spells(name, "help") {
        Some(plain("Commands: ls, net, ping, run, term, top, wifi\n"))
    } else if spells(name, "wifi") {
        Some(wifi(parts))
    } else if spells(name, "install") {
        Some(install())
    } else if spells(name, "ls") {
        Some(list(root, dir))
    } else if spells(name, "cat") {
        Some(cat(root, dir, parts))
    } else if spells(name, "grep") {
        Some(grep(root, dir, parts))
    } else if spells(name, "pwd") {
        let mut text = plain(dir);
        text.append("\n");
        Some(text)
    } else if spells(name, "find") {
        Some(find(root, parts))
    } else if spells(name, "du") {
        Some(du(root, dir))
    } else if spells(name, "stat") {
        Some(stat(root, dir, parts))
    } else if spells(name, "head") {
        Some(head(root, dir, parts))
    } else if spells(name, "tail") {
        Some(tail(root, dir, parts))
    } else if spells(name, "wc") {
        Some(wc(root, dir, parts))
    } else if spells(name, "ip") {
        Some(ip(ip_address))
    } else if spells(name, "echo") {
        match find_redirect(parts) {
            Some(_) => None,
            None => Some(echo(parts)),
        }
    } else {
        None
    }
}

/// The view of a change that may be missing.
pub open spec fn change_view(root: NodeView, change: Option<Change>) -> Option<Changed> {
    match change {
        Some(c) => Some(Changed { root, message: c.message@, save: c.save }),
        None => None,
    }
}

/// Carries out a command that changes the tree.
pub fn change(root: &mut Node, dir: &str, parts: &Vec<Vec<char>>) -> (r: Option<Change>)
    requires
        parts.len() >= 1,
    ensures
        change_view(final(root)@, r) == change_for(old(root)@, dir@, part_views(parts@)),
        r is None ==> final(root)@ == old(root)@,
{
    let name = &parts[0];
    proof {
        assert(part_views(parts@)[0] == parts@[0]@);
    }
    if spells(name, "mkdir") {
        Some(make_dir(root, dir, parts))
    } else if spells(name, "rm") {
        Some(remove(root, dir, parts))
    } else if spells(name, "write") {
        Some(write_file(root, dir, parts))
    } else if spells(name, "touch") {
        Some(make_file(root, dir, parts))
    } else if spells(name, "cp") {
        Some(copy(root, dir, parts))
    } else if spells(name, "mv") {
        Some(rename(root, dir, parts))
    } else if spells(name, "echo") {
        match find_redirect(parts) {
            Some(idx) => {
                proof {
                    reveal_strlit("echo");
                    reveal_strlit(">");
                    reveal_strlit(">>");
                    if idx == 0 {
                        let first = part_views(parts@)[0];
                        assert(first == "echo"@);
                        assert(first == ">"@ || first == ">>"@);
                        assert("echo"@.len() == 4);
                        assert(">"@.len() == 1);
                        assert(">>"@.len() == 2);
                    }
                }
                Some(echo_to_file(root, dir, parts, idx))
            },
            None => None,
        }
    } else {
        None
    }
}

} // verus!
