//! The shell: terminal windows, a command line with history, an editor,
//! and the commands that work on the file tree.

use vstd::prelude::*;
use crate::compositor::{
    has_editor_title, lemma_char_keeps_steady, lemma_fresh_is_steady, lettered, Window,
    WindowView, BORDER_WIDTH, CONTENT_COLOR, EDITOR_MARGIN, LINE_HEIGHT, MIN_HEIGHT, MIN_WIDTH,
    STEADY_LIMIT, TEXT_COLOR, TEXT_LEFT, TEXT_TOP,
};
use crate::input::{pop_key, KeyboardBuffer};
use crate::keyboard::{KEY_COPY, KEY_DELETE, KEY_DOWN, KEY_LEFT, KEY_PASTE, KEY_RIGHT, KEY_UP};
use crate::logger::{drain, Logger};
use crate::time::Time;
use crate::font::GLYPH_WIDTH;
use crate::fs::{
    ls, read, save_to_disk, touch, disk_image, listing_of, listing_view, Node, NodeView,
};
use crate::scheduler::{TaskInfo, TaskStatus};
use crate::strings::{chars_of, push_char, string_from_utf8};
use crate::commands::{
    cd_change, change_dir, copy, echo, head, ip, list, remove, unknown_text, Change, Changed,
};
use crate::text::{
    decimal, joined, join, left_aligned, lines, lines_of, occurs, part_views, push_chars,
    push_decimal, push_decimal_right, push_left, right_aligned, spells, split_whitespace,
    to_string, trim, trimmed, words,
};

verus! {

/// Most windows the shell opens.
pub const MAX_WINDOWS: usize = 15;

/// Most keys the shell takes in one turn.
pub const KEYS_PER_TURN: usize = 10;

/// Cycles that must pass between two terminals opened by key.
pub const SPAWN_INTERVAL: u64 = 1_000_000_000;

/// The shell's state.
pub struct Shell {
    command_buffer: Vec<char>,
    pub windows: Vec<Window>,
    pub active_idx: usize,
    last_spawn_time: u64,
    pub current_dir: String,
    pub history: Vec<String>,
    pub history_idx: usize,
    pub clipboard: String,
    pub nano_status: String,
    /// Characters of the command line in front of the cursor.
    pub insertion_point: usize,
    /// Characters the active window's text had when the prompt was
    /// printed.
    pub prompt_start_idx: usize,
    /// Row of the prompt in the active window.
    pub prompt_start_y: usize,
}

/// The shell as a mathematical value.
pub struct ShellView {
    pub command: Seq<char>,
    pub windows: Seq<WindowView>,
    pub active_idx: usize,
    pub last_spawn_time: u64,
    pub current_dir: Seq<char>,
    pub history: Seq<Seq<char>>,
    pub history_idx: usize,
    pub clipboard: Seq<char>,
    pub nano_status: Seq<char>,
    pub insertion_point: usize,
    pub prompt_start_idx: usize,
    pub prompt_start_y: usize,
}

/// The windows of a list as mathematical values.
pub open spec fn window_views(windows: Seq<Window>) -> Seq<WindowView> {
    Seq::new(windows.len(), |i: int| windows[i]@)
}

/// The texts of a list of strings.
pub open spec fn texts(strings: Seq<String>) -> Seq<Seq<char>> {
    Seq::new(strings.len(), |i: int| strings[i]@)
}

impl View for Shell {
    type V = ShellView;

    closed spec fn view(&self) -> ShellView {
        ShellView {
            command: self.command_buffer@,
            windows: window_views(self.windows@),
            active_idx: self.active_idx,
            last_spawn_time: self.last_spawn_time,
            current_dir: self.current_dir@,
            history: texts(self.history@),
            history_idx: self.history_idx,
            clipboard: self.clipboard@,
            nano_status: self.nano_status@,
            insertion_point: self.insertion_point,
            prompt_start_idx: self.prompt_start_idx,
            prompt_start_y: self.prompt_start_y,
        }
    }
}

/// The name of the file that keeps the history.
pub open spec fn history_file() -> Seq<char> {
    ".bash_history"@
}

/// The path of the root directory.
pub open spec fn root_path() -> Seq<char> {
    "/"@
}

/// The history a tree holds: the lines of the history file in its root
/// directory; `None` where there is no such file or it is no text.
pub open spec fn stored_history(root: NodeView) -> Option<Seq<Seq<char>>> {
    match root.file_at(root_path(), history_file()) {
        Some(data) => if vstd::utf8::valid_utf8(data) {
            Some(lines_of(vstd::utf8::decode_utf8(data)))
        } else {
            None
        },
        None => None,
    }
}

/// The history as it is written to its file: every command followed by a
/// line feed.
pub open spec fn history_text(history: Seq<Seq<char>>, upto: nat) -> Seq<char>
    decreases upto,
{
    if upto == 0 || upto > history.len() {
        Seq::empty()
    } else {
        history_text(history, (upto - 1) as nat) + history[upto - 1] + seq!['\n']
    }
}

/// The line that greets in the first terminal.
pub open spec fn banner() -> Seq<char> {
    "Chronos Terminal v1.0\n"@
}

/// The prompt.
pub open spec fn prompt() -> Seq<char> {
    "> "@
}

impl ShellView {
    /// Every window takes text of any length, and so does the active
    /// window with its cursor on the prompt's row.
    pub open spec fn wf(self) -> bool {
        &&& forall|i: int| 0 <= i < self.windows.len() ==> (#[trigger] self.windows[i]).steady()
        &&& self.prompt_start_y <= STEADY_LIMIT
        &&& self.windows.len() <= usize::MAX
        &&& self.insertion_point <= self.command.len()
        &&& self.history_idx <= self.history.len()
    }

    /// The active window, if there is one.
    pub open spec fn active(self) -> Option<WindowView> {
        if self.active_idx < self.windows.len() {
            Some(self.windows[self.active_idx as int])
        } else {
            None
        }
    }

    /// The shell with another window in place of the active one.
    pub open spec fn with_active(self, win: WindowView) -> ShellView {
        if self.active_idx < self.windows.len() {
            ShellView { windows: self.windows.update(self.active_idx as int, win), ..self }
        } else {
            self
        }
    }

    /// The shell after `text` was printed in the active window; without
    /// an active window nothing is printed.
    pub open spec fn printed(self, text: Seq<char>) -> ShellView {
        match self.active() {
            Some(win) => self.with_active(win.with_text(text)),
            None => self,
        }
    }

    /// The shell after the history was loaded from a tree: the history
    /// the tree holds, and the place in it behind the last command.
    /// Without a stored history nothing changes.
    pub open spec fn with_history_from(self, root: NodeView) -> ShellView {
        match stored_history(root) {
            Some(history) => ShellView { history, history_idx: history.len() as usize, ..self },
            None => self,
        }
    }

    /// The shell as it starts over a tree: one terminal with the banner
    /// and a prompt, in the root directory, with the history the tree
    /// holds.
    pub open spec fn initial(root: NodeView) -> ShellView {
        (ShellView {
            command: Seq::empty(),
            windows: seq![
                WindowView::fresh(50, 50, 700, 400, "Terminal 1"@).with_text(banner()).with_text(
                    prompt(),
                ),
            ],
            active_idx: 0,
            last_spawn_time: 0,
            current_dir: root_path(),
            history: Seq::empty(),
            history_idx: 0,
            clipboard: Seq::empty(),
            nano_status: Seq::empty(),
            insertion_point: 0,
            prompt_start_idx: WindowView::fresh(50, 50, 700, 400, "Terminal 1"@).with_text(
                banner(),
            ).text.len() as usize,
            prompt_start_y: WindowView::fresh(50, 50, 700, 400, "Terminal 1"@).with_text(
                banner(),
            ).cursor_y,
        }).with_history_from(root)
    }
}

/// The views of a list follow a change of one window and a window added
/// at the end.
pub proof fn lemma_window_views()
    ensures
        forall|windows: Seq<Window>, i: int, win: Window|
            0 <= i < windows.len() ==> #[trigger] window_views(windows.update(i, win))
                == window_views(windows).update(i, win@),
        forall|windows: Seq<Window>, win: Window| #[trigger]
            window_views(windows.push(win)) == window_views(windows).push(win@),
        forall|windows: Seq<Window>, i: int|
            0 <= i < windows.len() ==> #[trigger] window_views(windows.remove(i)) == window_views(
                windows,
            ).remove(i),
{
    assert forall|windows: Seq<Window>, i: int, win: Window| 0 <= i < windows.len() implies #[trigger] window_views(
        windows.update(i, win),
    ) == window_views(windows).update(i, win@) by {
        assert(window_views(windows.update(i, win)) =~= window_views(windows).update(i, win@));
    }
    assert forall|windows: Seq<Window>, win: Window| #[trigger]
        window_views(windows.push(win)) == window_views(windows).push(win@) by {
        assert(window_views(windows.push(win)) =~= window_views(windows).push(win@));
    }
    assert forall|windows: Seq<Window>, i: int| 0 <= i < windows.len() implies #[trigger] window_views(
        windows.remove(i),
    ) == window_views(windows).remove(i) by {
        assert(window_views(windows.remove(i)) =~= window_views(windows).remove(i));
    }
}

impl Shell {
    /// See [`ShellView::wf`].
    pub open spec fn wf(&self) -> bool {
        self@.wf()
    }

    /// The characters of the command line.
    pub fn command_buffer(&self) -> (r: &Vec<char>)
        ensures
            r@ == self@.command,
    {
        &self.command_buffer
    }

    /// A shell over the tree `root`: one terminal with banner and prompt,
    /// the root directory as current directory, and the history that the
    /// tree holds.
    pub fn new(root: &Node) -> (s: Shell)
        ensures
            s@ == ShellView::initial(root@),
            s.wf(),
    {
        proof {
            lemma_fresh_is_steady(50, 50, 700, 400, "Terminal 1"@);
        }
        let mut win = Window::new(50, 50, 700, 400, "Terminal 1");
        win.print("Chronos Terminal v1.0\n");
        let prompt_start_idx = win.text_buffer.as_str().unicode_len();
        let prompt_start_y = win.cursor_y;
        win.print("> ");
        let mut windows: Vec<Window> = Vec::new();
        windows.push(win);
        let mut s = Shell {
            command_buffer: Vec::new(),
            windows,
            active_idx: 0,
            last_spawn_time: 0,
            current_dir: "/".to_owned(),
            history: Vec::new(),
            history_idx: 0,
            clipboard: String::new(),
            nano_status: String::new(),
            insertion_point: 0,
            prompt_start_idx,
            prompt_start_y,
        };
        proof {
            assert(s@.windows =~= seq![
                WindowView::fresh(50, 50, 700, 400, "Terminal 1"@).with_text(banner()).with_text(
                    prompt(),
                ),
            ]);
            assert(s@.history =~= Seq::<Seq<char>>::empty());
        }
        s.load_history(root);
        s
    }

    /// Takes the history from the history file in the root directory of
    /// the tree. Without such a file, or where it is no text, the history
    /// stays as it is.
    pub fn load_history(&mut self, root: &Node)
        ensures
            final(self)@ == old(self)@.with_history_from(root@),
    {
        match read(root, "/", ".bash_history") {
            Some(data) => {
                match string_from_utf8(data) {
                    Some(s) => {
                        proof {
                            vstd::utf8::encode_utf8_decode_utf8(s@);
                        }
                        let chars = chars_of(s.as_str());
                        let found = lines(&chars);
                        let mut history: Vec<String> = Vec::new();
                        let mut i: usize = 0;
                        while i < found.len()
                            invariant
                                i <= found.len(),
                                history.len() == i,
                                forall|k: int|
                                    0 <= k < i ==> (#[trigger] history@[k])@ == found@[k]@,
                            decreases found.len() - i,
                        {
                            history.push(to_string(&found[i]));
                            i = i + 1;
                        }
                        proof {
                            assert(texts(history@) =~= part_views(found@));
                        }
                        self.history_idx = history.len();
                        self.history = history;
                    },
                    None => {},
                }
            },
            None => {},
        }
    }

    /// Writes the history into the history file of the tree's root
    /// directory and gives the image of the tree to write to disk.
    pub fn save_history(&self, root: &mut Node) -> (image: Vec<u8>)
        ensures
            final(root)@ == old(root)@.after_touch(
                root_path(),
                history_file(),
                vstd::utf8::encode_utf8(history_text(self@.history, self@.history.len())),
            ),
            image@ == disk_image(final(root)@),
    {
        let mut data = String::new();
        let mut i: usize = 0;
        while i < self.history.len()
            invariant
                i <= self.history.len(),
                data@ == history_text(texts(self.history@), i as nat),
            decreases self.history.len() - i,
        {
            data.append(self.history[i].as_str());
            push_char(&mut data, '\n');
            i = i + 1;
            proof {
                assert(data@ =~= history_text(texts(self.history@), i as nat));
            }
        }
        let bytes = data.as_str().as_bytes_vec();
        let _ = touch(root, "/", ".bash_history", bytes);
        save_to_disk(root)
    }

    /// Prints `text` in the active window; does nothing without one.
    pub fn print(&mut self, text: &str)
        requires
            old(self).wf(),
        ensures
            final(self)@ == old(self)@.printed(text@),
            final(self).wf(),
    {
        proof {
            lemma_window_views();
        }
        if self.active_idx < self.windows.len() {
            let ghost before = self.windows@;
            proof {
                assert(window_views(before)[self.active_idx as int].steady());
            }
            self.windows[self.active_idx].print(text);
            proof {
                assert(self@.windows =~= old(self)@.windows.update(
                    self.active_idx as int,
                    old(self)@.windows[self.active_idx as int].with_text(text@),
                ));
            }
        }
    }
}

/// Most windows there may be when a browser is opened.
pub const BROWSER_LIMIT: usize = 10;

/// What is left to the caller after a command: work on the hardware.
pub enum Hardware {
    /// Bring the network up and wait for an address.
    Net,
    /// Send four echo requests.
    Ping,
    /// Run the file of the root directory with the given name.
    Run(String),
    /// Read the first sector of the disk and show it.
    DiskRead,
    /// Write the text to the first sector of the disk.
    DiskWrite(String),
    /// Show how `disk` is used.
    DiskUsage,
    /// List the root directory of the FAT volume.
    LsDisk,
    /// Show the file of the FAT volume with the given name; without a
    /// name, show how `catdisk` is used.
    CatDisk(Option<String>),
    /// Run the file of the FAT volume with the given name.
    RunDisk(String),
}

/// Work on the hardware as a mathematical value.
pub enum HardwareView {
    Net,
    Ping,
    Run(Seq<char>),
    DiskRead,
    DiskWrite(Seq<char>),
    DiskUsage,
    LsDisk,
    CatDisk(Option<Seq<char>>),
    RunDisk(Seq<char>),
}

impl View for Hardware {
    type V = HardwareView;

    open spec fn view(&self) -> HardwareView {
        match self {
            Hardware::Net => HardwareView::Net,
            Hardware::Ping => HardwareView::Ping,
            Hardware::Run(name) => HardwareView::Run(name@),
            Hardware::DiskRead => HardwareView::DiskRead,
            Hardware::DiskWrite(text) => HardwareView::DiskWrite(text@),
            Hardware::DiskUsage => HardwareView::DiskUsage,
            Hardware::LsDisk => HardwareView::LsDisk,
            Hardware::CatDisk(name) => HardwareView::CatDisk(
                match name {
                    Some(name) => Some(name@),
                    None => None,
                },
            ),
            Hardware::RunDisk(name) => HardwareView::RunDisk(name@),
        }
    }
}

/// What a command leaves to the caller.
pub struct Outcome {
    /// Images of the tree to write to disk, in this order.
    pub images: Vec<Vec<u8>>,
    /// Work on the hardware, if the command asks for some.
    pub hardware: Option<Hardware>,
}

/// What a command leaves to the caller, as a mathematical value.
pub struct OutcomeView {
    pub images: Seq<Seq<u8>>,
    pub hardware: Option<HardwareView>,
}

/// The bytes of each image.
pub open spec fn image_views(images: Seq<Vec<u8>>) -> Seq<Seq<u8>> {
    Seq::new(images.len(), |i: int| images[i]@)
}

impl View for Outcome {
    type V = OutcomeView;

    open spec fn view(&self) -> OutcomeView {
        OutcomeView {
            images: image_views(self.images@),
            hardware: match self.hardware {
                Some(h) => Some(h@),
                None => None,
            },
        }
    }
}

/// The title of a browser window.
pub open spec fn browser_title() -> Seq<char> {
    "Web Browser - Google"@
}

/// What a new browser window shows.
pub open spec fn browser_text() -> Seq<char> {
    "Welcome to Chronos Browser\n"@ + "--------------------------\n"@
        + "Type 'goto <url>' to browse.\n"@
}

/// What a browser window shows for an address.
pub open spec fn page_text(url: Seq<char>) -> Seq<char> {
    "ADDRESS: "@ + url + "\n"@ + "--------------------------\n\n"@ + "Status: Resolving host...\n"@
        + "Status: Connecting...\n"@ + "Status: Fetching HTML...\n"@ + "\n[ CONTENT ]\n"@
        + "Welcome to the web! This is a simulated\n"@ + "HTML page rendered in text mode.\n"@
        + "\nNavigation complete.\n"@
}

/// The title of terminal number `count`.
pub open spec fn terminal_title(count: nat) -> Seq<char> {
    "Terminal "@ + decimal(count)
}

/// The title of the editor window for a file.
pub open spec fn editor_title(name: Seq<char>) -> Seq<char> {
    "Nano - "@ + name
}

/// The name of the first file from entry `from` on whose name holds
/// `pattern`.
pub open spec fn first_file_holding(children: Seq<NodeView>, pattern: Seq<char>, from: int) -> Option<
    Seq<char>,
>
    decreases children.len() - from,
{
    if from < 0 || from >= children.len() {
        None
    } else if !children[from].is_dir() && occurs(children[from].name(), pattern) {
        Some(children[from].name())
    } else {
        first_file_holding(children, pattern, from + 1)
    }
}

impl ShellView {
    /// The shell with one more window, which is the active one.
    pub open spec fn opened(self, win: WindowView) -> ShellView {
        ShellView {
            windows: self.windows.push(win),
            active_idx: self.windows.len() as usize,
            ..self
        }
    }

    /// The shell after `term`: a new terminal a little further down and
    /// right for every window there is, or a complaint where fifteen
    /// windows are open.
    pub open spec fn with_terminal(self) -> ShellView {
        if self.windows.len() >= MAX_WINDOWS {
            self.printed("\nError: Maximum window limit reached (Resource Protection).\n"@)
        } else {
            self.opened(
                WindowView::fresh(
                    (50 + (self.windows.len() + 1) * 30) as usize,
                    (50 + (self.windows.len() + 1) * 30) as usize,
                    700,
                    400,
                    terminal_title(self.windows.len() + 1),
                ).with_text("Chronos Terminal\n> "@),
            )
        }
    }

    /// The shell after `browser`.
    pub open spec fn with_browser(self) -> ShellView {
        if self.windows.len() >= BROWSER_LIMIT {
            self.printed("Error: Maximum window limit reached.\n"@)
        } else {
            self.opened(
                WindowView::fresh(150, 150, 600, 450, browser_title()).cleared().with_text(
                    browser_text(),
                ),
            ).printed("Launched Web Browser.\n"@)
        }
    }

    /// The shell after a window with the given place, size and title was
    /// asked for: the window, or a complaint where fifteen are open.
    pub open spec fn with_tool(self, x: usize, y: usize, w: usize, h: usize, title: Seq<char>) -> ShellView {
        if self.windows.len() >= MAX_WINDOWS {
            self.printed("Error: Maximum window limit reached.\n"@)
        } else {
            self.opened(WindowView::fresh(x, y, w, h, title))
        }
    }

    /// The shell after `nano`: an editor window that shows the file, or
    /// nothing where the file is missing or no text.
    pub open spec fn with_editor(self, root: NodeView, parts: Seq<Seq<char>>) -> ShellView {
        if parts.len() < 2 {
            self.printed("Usage: nano <file>\n"@)
        } else if self.windows.len() >= MAX_WINDOWS {
            self.printed("Error: Maximum window limit reached.\n"@)
        } else {
            self.opened(
                WindowView::fresh(100, 100, 600, 450, editor_title(parts[1])).with_text(
                    match crate::commands::file_text(root, self.current_dir, parts[1]) {
                        crate::commands::FileText::Text(text, _) => text,
                        _ => Seq::empty(),
                    },
                ),
            )
        }
    }

    /// The windows after every browser window has loaded `url`.
    pub open spec fn browsing(self, url: Seq<char>) -> Seq<WindowView> {
        Seq::new(
            self.windows.len(),
            |i: int|
                if self.windows[i].title == browser_title() {
                    self.windows[i].cleared().with_text(page_text(url))
                } else {
                    self.windows[i]
                },
        )
    }

    /// The shell after `goto`.
    pub open spec fn with_page(self, parts: Seq<Seq<char>>) -> ShellView {
        if parts.len() < 2 {
            self.printed("Usage: goto <url>\n"@)
        } else {
            ShellView {
                windows: self.printed("Navigating to "@ + parts[1] + "...\n"@).browsing(parts[1]),
                ..self
            }
        }
    }

    /// The shell after `clear`: no window is left.
    pub open spec fn without_windows(self) -> ShellView {
        ShellView { windows: Seq::empty(), ..self }
    }
}

impl Shell {
    /// Puts the window on top of the others and makes it the active one.
    fn open(&mut self, win: Window)
        requires
            old(self).wf(),
            win@.steady(),
            old(self).windows.len() < usize::MAX,
        ensures
            final(self)@ == old(self)@.opened(win@),
            final(self).wf(),
    {
        proof {
            lemma_window_views();
        }
        self.windows.push(win);
        self.active_idx = self.windows.len() - 1;
    }

    /// Opens a new terminal, unless fifteen windows are open.
    pub fn spawn_terminal(&mut self)
        requires
            old(self).wf(),
        ensures
            final(self)@ == old(self)@.with_terminal(),
            final(self).wf(),
    {
        if self.windows.len() >= MAX_WINDOWS {
            self.print("\nError: Maximum window limit reached (Resource Protection).\n");
            return ;
        }
        let count = self.windows.len() + 1;
        let mut title = String::new();
        title.append("Terminal ");
        push_decimal(&mut title, count as u64);
        proof {
            assert(title@ =~= terminal_title(count as nat));
            lemma_fresh_is_steady((50 + count * 30) as usize, (50 + count * 30) as usize, 700, 400, title@);
        }
        let mut win = Window::new(50 + (count * 30), 50 + (count * 30), 700, 400, title.as_str());
        win.print("Chronos Terminal\n> ");
        self.open(win);
    }

    /// `browser`: opens a browser window, unless ten windows are open.
    pub fn open_browser(&mut self)
        requires
            old(self).wf(),
        ensures
            final(self)@ == old(self)@.with_browser(),
            final(self).wf(),
    {
        if self.windows.len() >= BROWSER_LIMIT {
            self.print("Error: Maximum window limit reached.\n");
            return ;
        }
        proof {
            lemma_fresh_is_steady(150, 150, 600, 450, browser_title());
        }
        let mut win = Window::new(150, 150, 600, 450, "Web Browser - Google");
        win.clear();
        let mut text = String::new();
        text.append("Welcome to Chronos Browser\n");
        text.append("--------------------------\n");
        text.append("Type 'goto <url>' to browse.\n");
        proof {
            assert(text@ =~= browser_text());
        }
        win.print(text.as_str());
        self.open(win);
        self.print("Launched Web Browser.\n");
    }

    /// `top`, `fm` and `explorer`: opens an empty window with the given
    /// place, size and title, unless fifteen windows are open.
    pub fn open_tool(&mut self, x: usize, y: usize, w: usize, h: usize, title: &str)
        requires
            old(self).wf(),
            crate::compositor::MIN_WIDTH <= w <= STEADY_LIMIT,
            97 < h <= STEADY_LIMIT,
            w * h <= usize::MAX,
        ensures
            final(self)@ == old(self)@.with_tool(x, y, w, h, title@),
            final(self).wf(),
    {
        if self.windows.len() >= MAX_WINDOWS {
            self.print("Error: Maximum window limit reached.\n");
            return ;
        }
        proof {
            lemma_fresh_is_steady(x, y, w, h, title@);
        }
        let win = Window::new(x, y, w, h, title);
        self.open(win);
    }

    /// `nano`: opens an editor window on a file of the current directory.
    pub fn open_editor(&mut self, root: &Node, parts: &Vec<Vec<char>>)
        requires
            old(self).wf(),
        ensures
            final(self)@ == old(self)@.with_editor(root@, part_views(parts@)),
            final(self).wf(),
    {
        if parts.len() < 2 {
            self.print("Usage: nano <file>\n");
            return ;
        }
        if self.windows.len() >= MAX_WINDOWS {
            self.print("Error: Maximum window limit reached.\n");
            return ;
        }
        let content = match crate::commands::read_text(root, self.current_dir.as_str(), &parts[1]) {
            crate::commands::FileContent::Text(text, _) => to_string(&text),
            _ => String::new(),
        };
        let mut title = String::new();
        title.append("Nano - ");
        push_chars(&mut title, &parts[1]);
        proof {
            assert(title@ =~= editor_title(parts@[1]@));
            lemma_fresh_is_steady(100, 100, 600, 450, title@);
        }
        let mut win = Window::new(100, 100, 600, 450, title.as_str());
        win.print(content.as_str());
        self.open(win);
    }

    /// `goto`: announces the address and shows its page in every browser
    /// window.
    pub fn go_to(&mut self, parts: &Vec<Vec<char>>)
        requires
            old(self).wf(),
        ensures
            final(self)@ == old(self)@.with_page(part_views(parts@)),
            final(self).wf(),
    {
        if parts.len() < 2 {
            self.print("Usage: goto <url>\n");
            return ;
        }
        let mut note = String::new();
        note.append("Navigating to ");
        push_chars(&mut note, &parts[1]);
        note.append("...\n");
        proof {
            assert(note@ =~= "Navigating to "@ + parts@[1]@ + "...\n"@);
        }
        self.print(note.as_str());
        let mut page = String::new();
        page.append("ADDRESS: ");
        push_chars(&mut page, &parts[1]);
        page.append("\n");
        page.append("--------------------------\n\n");
        page.append("Status: Resolving host...\n");
        page.append("Status: Connecting...\n");
        page.append("Status: Fetching HTML...\n");
        page.append("\n[ CONTENT ]\n");
        page.append("Welcome to the web! This is a simulated\n");
        page.append("HTML page rendered in text mode.\n");
        page.append("\nNavigation complete.\n");
        proof {
            assert(page@ =~= page_text(parts@[1]@));
        }
        let ghost announced = self@;
        let mut i: usize = 0;
        while i < self.windows.len()
            invariant
                i <= self.windows.len(),
                self.windows.len() == announced.windows.len(),
                self.wf(),
                page@ == page_text(parts@[1]@),
                parts.len() >= 2,
                self@ == (ShellView { windows: self@.windows, ..announced }),
                forall|k: int|
                    0 <= k < self.windows.len() ==> #[trigger] self@.windows[k] == if k < i
                        && announced.windows[k].title == browser_title() {
                        announced.windows[k].cleared().with_text(page_text(parts@[1]@))
                    } else {
                        announced.windows[k]
                    },
            decreases self.windows.len() - i,
        {
            proof {
                lemma_window_views();
                assert(self@.windows[i as int].steady());
            }
            if crate::strings::same_text(self.windows[i].title.as_str(), "Web Browser - Google") {
                self.windows[i].clear();
                proof {
                    lemma_cleared_is_steady(announced.windows[i as int]);
                }
                self.windows[i].print(page.as_str());
            }
            i = i + 1;
        }
        proof {
            assert(self@.windows =~= announced.browsing(parts@[1]@));
        }
    }

    /// `clear`: closes every window.
    pub fn close_all(&mut self)
        ensures
            final(self)@ == old(self)@.without_windows(),
            old(self).wf() ==> final(self).wf(),
    {
        self.windows = Vec::new();
        proof {
            assert(self@.windows =~= Seq::<WindowView>::empty());
        }
    }
}

/// A steady window is steady after it was cleared.
pub proof fn lemma_cleared_is_steady(v: WindowView)
    requires
        v.steady(),
    ensures
        v.cleared().steady(),
        v.cleared().title == v.title,
{
}

/// What a command did.
pub struct Executed {
    pub shell: ShellView,
    pub root: NodeView,
    /// The tree is to be saved to disk.
    pub save: bool,
    pub hardware: Option<HardwareView>,
}

/// The work `disk` asks for.
pub open spec fn disk_work(parts: Seq<Seq<char>>) -> HardwareView {
    if parts.len() > 2 && parts[1] == "write"@ {
        HardwareView::DiskWrite(joined(parts, 2, parts.len() as int))
    } else if parts.len() > 1 && parts[1] == "read"@ {
        HardwareView::DiskRead
    } else {
        HardwareView::DiskUsage
    }
}

impl ShellView {
    /// The command was just an answer.
    pub open spec fn answered(self, root: NodeView, text: Seq<char>) -> Executed {
        Executed { shell: self.printed(text), root, save: false, hardware: None }
    }

    /// The command changed the tree, or tried to.
    pub open spec fn changed(self, change: Changed) -> Executed {
        Executed {
            shell: self.printed(change.message),
            root: change.root,
            save: change.save,
            hardware: None,
        }
    }

    /// The command worked on the windows.
    pub open spec fn arranged(self, root: NodeView) -> Executed {
        Executed { shell: self, root, save: false, hardware: None }
    }

    /// What a command that works on the windows or the current directory
    /// makes of the shell; `None` for any other command.
    pub open spec fn arranged_for(self, root: NodeView, parts: Seq<Seq<char>>) -> Option<ShellView> {
        let name = parts[0];
        if name == "browser"@ {
            Some(self.with_browser())
        } else if name == "goto"@ {
            Some(self.with_page(parts))
        } else if name == "cd"@ {
            Some(
                (ShellView {
                    current_dir: cd_change(root, self.current_dir, parts).0,
                    ..self
                }).printed(cd_change(root, self.current_dir, parts).1),
            )
        } else if name == "term"@ {
            Some(self.with_terminal())
        } else if name == "top"@ {
            Some(self.with_tool(300, 100, 400, 500, "System Monitor"@))
        } else if name == "fm"@ || name == "explorer"@ {
            Some(self.with_tool(150, 150, 500, 400, "File Explorer"@))
        } else if name == "nano"@ {
            Some(self.with_editor(root, parts))
        } else if name == "clear"@ {
            Some(self.without_windows())
        } else {
            None
        }
    }

    /// What a command that works on the hardware prints and leaves to
    /// the caller; `None` for any other command.
    pub open spec fn hardware_for(self, root: NodeView, parts: Seq<Seq<char>>) -> Option<
        (Seq<char>, Option<HardwareView>),
    > {
        let name = parts[0];
        if name == "net"@ {
            Some(("Initializing Network...\n"@, Some(HardwareView::Net)))
        } else if name == "ping"@ {
            Some((Seq::empty(), Some(HardwareView::Ping)))
        } else if name == "run"@ {
            if parts.len() < 2 {
                Some(("Usage: run <filename>\n"@, None))
            } else {
                match first_file_holding(root.children(), parts[1], 0) {
                    Some(file) => Some((Seq::empty(), Some(HardwareView::Run(file)))),
                    None => Some(("File not found.\n"@, None)),
                }
            }
        } else if name == "disk"@ {
            Some((Seq::empty(), Some(disk_work(parts))))
        } else if name == "lsdisk"@ {
            Some((Seq::empty(), Some(HardwareView::LsDisk)))
        } else if name == "catdisk"@ {
            Some(
                (
                    Seq::empty(),
                    Some(
                        HardwareView::CatDisk(
                            if parts.len() < 2 {
                                None
                            } else {
                                Some(parts[1])
                            },
                        ),
                    ),
                ),
            )
        } else if name == "rundisk"@ {
            if parts.len() < 2 {
                Some(("Usage: rundisk <file>\n"@, None))
            } else {
                Some((Seq::empty(), Some(HardwareView::RunDisk(parts[1]))))
            }
        } else {
            None
        }
    }

    /// What the command with the words `parts` does in this shell over
    /// the tree `root`, on a machine with the network address `ip`: a
    /// command that only reads is answered; one that changes the tree
    /// changes it and is answered; one for the windows arranges them; one
    /// for the hardware is handed over; anything else is not known.
    pub open spec fn dispatched(self, root: NodeView, ip: Seq<u8>, parts: Seq<Seq<char>>) -> Executed {
        match crate::commands::reply_for(root, self.current_dir, ip, parts) {
            Some(text) => self.answered(root, text),
            None => match crate::commands::change_for(root, self.current_dir, parts) {
                Some(change) => self.changed(change),
                None => match self.arranged_for(root, parts) {
                    Some(shell) => shell.arranged(root),
                    None => match self.hardware_for(root, parts) {
                        Some((text, work)) => Executed {
                            shell: self.printed(text),
                            root,
                            save: false,
                            hardware: work,
                        },
                        None => self.answered(root, unknown_text()),
                    },
                },
            },
        }
    }

    /// The command line is new to the history: it is not empty and not
    /// the command entered last.
    pub open spec fn is_news(self, cmd: Seq<char>) -> bool {
        cmd.len() > 0 && !(self.history.len() > 0 && self.history.last() == cmd)
    }

    /// The shell after the command line was noted in the history: a new
    /// command is added, and the place in the history is behind the last
    /// command.
    pub open spec fn noted(self, cmd: Seq<char>) -> ShellView {
        if cmd.len() == 0 {
            self
        } else if self.is_news(cmd) {
            ShellView {
                history: self.history.push(cmd),
                history_idx: (self.history.len() + 1) as usize,
                ..self
            }
        } else {
            ShellView { history_idx: self.history.len() as usize, ..self }
        }
    }

    /// The tree after the history was saved into it, where the command
    /// line is new to the history.
    pub open spec fn tree_with_history(self, root: NodeView) -> NodeView {
        let cmd = trimmed(self.command);
        if self.is_news(cmd) {
            root.after_touch(
                root_path(),
                history_file(),
                vstd::utf8::encode_utf8(
                    history_text(self.noted(cmd).history, self.noted(cmd).history.len()),
                ),
            )
        } else {
            root
        }
    }

    /// What entering the command line does: the line, trimmed, is noted
    /// in the history and the history saved if the line is new to it;
    /// then the command that the line's words spell is carried out.
    pub open spec fn executed(self, root: NodeView, ip: Seq<u8>) -> Executed {
        let cmd = trimmed(self.command);
        if words(cmd).len() == 0 {
            self.noted(cmd).arranged(self.tree_with_history(root))
        } else {
            self.noted(cmd).dispatched(self.tree_with_history(root), ip, words(cmd))
        }
    }

    /// The images of the tree that entering the command line leaves to
    /// write to disk: one with the history where the line was new to it,
    /// and one after a command that changed the tree.
    pub open spec fn images_left(self, root: NodeView, ip: Seq<u8>) -> Seq<Seq<u8>> {
        (if self.is_news(trimmed(self.command)) {
            seq![disk_image(self.tree_with_history(root))]
        } else {
            Seq::empty()
        }) + (if self.executed(root, ip).save {
            seq![disk_image(self.executed(root, ip).root)]
        } else {
            Seq::empty()
        })
    }
}

/// Printing nothing changes nothing.
pub proof fn lemma_printed_nothing(s: ShellView)
    ensures
        s.printed(Seq::empty()) == s,
{
    if s.active() is Some {
        assert(s.windows.update(s.active_idx as int, s.windows[s.active_idx as int]) =~= s.windows);
    }
}

impl Shell {
    /// Prints the answer of a command.
    fn answer(&mut self, text: String)
        requires
            old(self).wf(),
        ensures
            final(self)@ == old(self)@.printed(text@),
            final(self).wf(),
    {
        self.print(text.as_str());
    }

    /// Prints what a command that changed the tree answers, and gives
    /// the image to save where the tree is to be saved.
    fn report(&mut self, root: &Node, change: Change, images: &mut Vec<Vec<u8>>)
        requires
            old(self).wf(),
        ensures
            final(self)@ == old(self)@.printed(change.message@),
            final(self).wf(),
            image_views(final(images)@) == image_views(old(images)@) + if change.save {
                seq![disk_image(root@)]
            } else {
                Seq::<Seq<u8>>::empty()
            },
    {
        self.print(change.message.as_str());
        if change.save {
            let ghost before = image_views(images@);
            let image = save_to_disk(root);
            images.push(image);
            proof {
                assert(image_views(images@) =~= before + seq![disk_image(root@)]);
            }
        } else {
            proof {
                assert(image_views(images@) =~= image_views(old(images)@) + Seq::<
                    Seq<u8>,
                >::empty());
            }
        }
    }

    /// Name of the first file of the root directory whose name holds
    /// `pattern`.
    fn find_program(root: &Node, pattern: &Vec<char>) -> (r: Option<String>)
        ensures
            match r {
                Some(name) => first_file_holding(root@.children(), pattern@, 0) == Some(name@),
                None => first_file_holding(root@.children(), pattern@, 0) is None,
            },
    {
        proof {
            crate::fs::lemma_directory_views();
        }
        match root {
            Node::Directory { children, .. } => {
                let mut i: usize = 0;
                while i < children.len()
                    invariant
                        i <= children.len(),
                        root@.children() == crate::fs::views(children@),
                        first_file_holding(root@.children(), pattern@, 0) == first_file_holding(
                            root@.children(),
                            pattern@,
                            i as int,
                        ),
                    decreases children.len() - i,
                {
                    proof {
                        crate::fs::lemma_directory_views();
                    }
                    if !children[i].is_dir() {
                        let name = chars_of(children[i].name());
                        if crate::text::contains(&name, pattern) {
                            return Some(to_string(&name));
                        }
                    }
                    i = i + 1;
                }
                None
            },
            Node::File { .. } => None,
        }
    }

    /// Notes the command line in the history and saves the history where
    /// the line is new to it.
    fn note(&mut self, root: &mut Node, cmd: &Vec<char>, images: &mut Vec<Vec<u8>>)
        requires
            old(self).wf(),
            cmd@ == trimmed(old(self)@.command),
            old(images)@.len() == 0,
        ensures
            final(self)@ == old(self)@.noted(cmd@),
            final(root)@ == old(self)@.tree_with_history(old(root)@),
            final(self).wf(),
            image_views(final(images)@) == if old(self)@.is_news(cmd@) {
                seq![disk_image(final(root)@)]
            } else {
                Seq::<Seq<u8>>::empty()
            },
    {
        if cmd.len() > 0 {
            let text = to_string(cmd);
            let known = self.history.len() > 0 && crate::strings::same_text(
                self.history[self.history.len() - 1].as_str(),
                text.as_str(),
            );
            if !known {
                let ghost before = texts(self.history@);
                self.history.push(text);
                proof {
                    assert(texts(self.history@) =~= before.push(cmd@));
                }
                let image = self.save_history(root);
                images.push(image);
                proof {
                    assert(image_views(images@) =~= seq![disk_image(root@)]);
                }
            } else {
                proof {
                    assert(image_views(images@) =~= Seq::<Seq<u8>>::empty());
                }
            }
            self.history_idx = self.history.len();
        } else {
            proof {
                assert(image_views(images@) =~= Seq::<Seq<u8>>::empty());
            }
        }
    }

    /// Carries out a command that works on the windows or the current
    /// directory; tells whether the command was one.
    fn arrange(&mut self, root: &Node, parts: &Vec<Vec<char>>) -> (done: bool)
        requires
            old(self).wf(),
            parts.len() >= 1,
        ensures
            match old(self)@.arranged_for(root@, part_views(parts@)) {
                Some(shell) => done && final(self)@ == shell,
                None => !done && final(self)@ == old(self)@,
            },
            final(self).wf(),
    {
        let name = &parts[0];
        proof {
            assert(part_views(parts@)[0] == parts@[0]@);
        }
        if spells(name, "browser") {
            self.open_browser();
            true
        } else if spells(name, "goto") {
            self.go_to(parts);
            true
        } else if spells(name, "cd") {
            let dir = self.current_dir.clone();
            let (new_dir, message) = change_dir(root, dir.as_str(), parts);
            self.current_dir = new_dir;
            self.print(message.as_str());
            true
        } else if spells(name, "term") {
            self.spawn_terminal();
            true
        } else if spells(name, "top") {
            self.open_tool(300, 100, 400, 500, "System Monitor");
            true
        } else if spells(name, "fm") || spells(name, "explorer") {
            self.open_tool(150, 150, 500, 400, "File Explorer");
            true
        } else if spells(name, "nano") {
            self.open_editor(root, parts);
            true
        } else if spells(name, "clear") {
            self.close_all();
            true
        } else {
            false
        }
    }

    /// Prepares a command that works on the hardware: what to print, and
    /// the work to hand over. `None` for any other command.
    fn hand_over(root: &Node, parts: &Vec<Vec<char>>) -> (r: Option<(String, Option<Hardware>)>)
        requires
            parts.len() >= 1,
        ensures
            forall|shell: ShellView|
                match r {
                    Some((text, work)) => #[trigger] shell.hardware_for(root@, part_views(parts@))
                        == Some(
                        (
                            text@,
                            match work {
                                Some(w) => Some(w@),
                                None => None,
                            },
                        ),
                    ),
                    None => #[trigger] shell.hardware_for(root@, part_views(parts@)) is None,
                },
    {
        let name = &parts[0];
        proof {
            assert(part_views(parts@)[0] == parts@[0]@);
            if parts.len() > 1 {
                assert(part_views(parts@)[1] == parts@[1]@);
            }
        }
        if spells(name, "net") {
            Some(("Initializing Network...\n".to_owned(), Some(Hardware::Net)))
        } else if spells(name, "ping") {
            Some((String::new(), Some(Hardware::Ping)))
        } else if spells(name, "run") {
            if parts.len() < 2 {
                Some(("Usage: run <filename>\n".to_owned(), None))
            } else {
                match Shell::find_program(root, &parts[1]) {
                    Some(file) => Some((String::new(), Some(Hardware::Run(file)))),
                    None => Some(("File not found.\n".to_owned(), None)),
                }
            }
        } else if spells(name, "disk") {
            if parts.len() > 2 && spells(&parts[1], "write") {
                Some(
                    (
                        String::new(),
                        Some(Hardware::DiskWrite(to_string(&join(parts, 2, parts.len())))),
                    ),
                )
            } else if parts.len() > 1 && spells(&parts[1], "read") {
                Some((String::new(), Some(Hardware::DiskRead)))
            } else {
                Some((String::new(), Some(Hardware::DiskUsage)))
            }
        } else if spells(name, "lsdisk") {
            Some((String::new(), Some(Hardware::LsDisk)))
        } else if spells(name, "catdisk") {
            if parts.len() < 2 {
                Some((String::new(), Some(Hardware::CatDisk(None))))
            } else {
                Some((String::new(), Some(Hardware::CatDisk(Some(to_string(&parts[1]))))))
            }
        } else if spells(name, "rundisk") {
            if parts.len() < 2 {
                Some(("Usage: rundisk <file>\n".to_owned(), None))
            } else {
                Some((String::new(), Some(Hardware::RunDisk(to_string(&parts[1])))))
            }
        } else {
            None
        }
    }

    /// Carries out the command line: notes it in the history, saves the
    /// history where the line is new to it, and carries out the command
    /// its words spell. Commands on the file tree and the windows are
    /// carried out here; work on the hardware is left to the caller, as
    /// is the writing of the tree's images to disk.
    pub fn execute_command(&mut self, root: &mut Node, ip: [u8; 4]) -> (outcome: Outcome)
        requires
            old(self).wf(),
        ensures
            final(self)@ == old(self)@.executed(old(root)@, ip@).shell,
            final(root)@ == old(self)@.executed(old(root)@, ip@).root,
            outcome@.hardware == old(self)@.executed(old(root)@, ip@).hardware,
            outcome@.images == old(self)@.images_left(old(root)@, ip@),
            final(self).wf(),
    {
        let cmd = trim(&self.command_buffer);
        let mut images: Vec<Vec<u8>> = Vec::new();
        self.note(root, &cmd, &mut images);
        let parts = split_whitespace(&cmd);
        proof {
            assert(part_views(parts@).len() == parts@.len());
            assert(image_views(images@) + Seq::<Seq<u8>>::empty() =~= image_views(images@));
        }
        if parts.len() == 0 {
            return Outcome { images, hardware: None };
        }
        let dir = self.current_dir.clone();
        match crate::commands::reply(root, dir.as_str(), ip, &parts) {
            Some(text) => {
                self.print(text.as_str());
                return Outcome { images, hardware: None };
            },
            None => {},
        }
        match crate::commands::change(root, dir.as_str(), &parts) {
            Some(change) => {
                self.report(root, change, &mut images);
                return Outcome { images, hardware: None };
            },
            None => {},
        }
        if self.arrange(root, &parts) {
            return Outcome { images, hardware: None };
        }
        match Shell::hand_over(root, &parts) {
            Some((text, work)) => {
                proof {
                    lemma_printed_nothing(self@);
                }
                if text.as_str().unicode_len() > 0 {
                    self.print(text.as_str());
                }
                Outcome { images, hardware: work }
            },
            None => {
                self.print("Unknown command.\n");
                Outcome { images, hardware: None }
            },
        }
    }
}

impl WindowView {
    /// The window after the cursor has passed over `text` without drawing
    /// or recording it.
    pub open spec fn with_text_skipped(self, text: Seq<char>) -> WindowView
        decreases text.len(),
    {
        if text.len() == 0 {
            self
        } else {
            self.with_text_skipped(text.drop_last()).with_char_skipped(text.last())
        }
    }

    /// The window with the command line drawn anew: the text is cut back
    /// to where the prompt began, the rows from the prompt's row on are
    /// blanked, prompt and command are printed there, and the cursor is
    /// put behind the first `point` characters of the command.
    pub open spec fn with_command_line(
        self,
        command: Seq<char>,
        point: int,
        prompt_idx: int,
        prompt_y: usize,
    ) -> WindowView {
        let shown = (WindowView {
            text: if prompt_idx < self.text.len() {
                self.text.take(prompt_idx)
            } else {
                self.text
            },
            cursor_x: TEXT_LEFT,
            cursor_y: prompt_y,
            ..self
        }).cleared_from(prompt_y as int).with_text(prompt()).with_text(command);
        (WindowView { cursor_x: TEXT_LEFT, cursor_y: prompt_y, ..shown }).with_text_skipped(
            prompt(),
        ).with_text_skipped(
            command.take(
                if point < command.len() {
                    point
                } else {
                    command.len() as int
                },
            ),
        )
    }
}

/// A steady window is steady after its cursor has passed over a text.
pub proof fn lemma_skipped_keeps_steady(v: WindowView, text: Seq<char>)
    requires
        v.steady(),
    ensures
        v.with_text_skipped(text).steady(),
    decreases text.len(),
{
    if text.len() > 0 {
        lemma_skipped_keeps_steady(v, text.drop_last());
        lemma_char_keeps_steady(v.with_text_skipped(text.drop_last()), text.last());
    }
}

impl ShellView {
    /// The shell with the command line drawn anew in the active window.
    pub open spec fn redrawn(self) -> ShellView {
        match self.active() {
            Some(win) => self.with_active(
                win.with_command_line(
                    self.command,
                    self.insertion_point as int,
                    self.prompt_start_idx as int,
                    self.prompt_start_y,
                ),
            ),
            None => self,
        }
    }
}

impl Shell {
    /// Draws the command line anew in the active window and puts the
    /// cursor at the insertion point.
    pub fn redraw_command_line(&mut self)
        requires
            old(self).wf(),
        ensures
            final(self)@ == old(self)@.redrawn(),
            final(self).wf(),
    {
        proof {
            lemma_window_views();
        }
        if self.active_idx < self.windows.len() {
            let cmd = to_string(&self.command_buffer);
            let active = self.active_idx;
            let ghost start = self@.windows[active as int];
            proof {
                assert(start.steady());
                reveal_strlit("> ");
            }
            self.windows[active].truncate_text_buffer(self.prompt_start_idx);
            self.windows[active].cursor_x = BORDER_WIDTH + 4;
            self.windows[active].cursor_y = self.prompt_start_y;
            let row = self.windows[active].cursor_y;
            self.windows[active].clear_from(row);
            self.windows[active].print("> ");
            self.windows[active].print(cmd.as_str());
            self.windows[active].cursor_x = BORDER_WIDTH + 4;
            self.windows[active].cursor_y = self.prompt_start_y;
            let ghost shown = self.windows[active as int]@;
            proof {
                assert("> "@ =~= seq!['>', ' ']);
                assert(shown.with_text_skipped(prompt()) == shown.with_char_skipped(
                    '>',
                ).with_char_skipped(' ')) by {
                    reveal_with_fuel(WindowView::with_text_skipped, 3);
                    assert(prompt().drop_last() =~= seq!['>']);
                    assert(prompt().drop_last().drop_last() =~= Seq::<char>::empty());
                }
                lemma_char_keeps_steady(shown, '>');
                lemma_char_keeps_steady(shown.with_char_skipped('>'), ' ');
            }
            self.windows[active].draw_char_no_buf('>');
            self.windows[active].draw_char_no_buf(' ');
            let ghost base = self.windows[active as int]@;
            let limit = if self.insertion_point < self.command_buffer.len() {
                self.insertion_point
            } else {
                self.command_buffer.len()
            };
            let mut i: usize = 0;
            proof {
                assert(self.command_buffer@.take(0) =~= Seq::<char>::empty());
            }
            while i < limit
                invariant
                    i <= limit <= self.command_buffer.len(),
                    active < self.windows.len(),
                    active == self.active_idx,
                    base.steady(),
                    self.windows[active as int]@ == base.with_text_skipped(
                        self.command_buffer@.take(i as int),
                    ),
                    self@ == (ShellView { windows: self@.windows, ..old(self)@ }),
                    self.windows.len() == old(self).windows.len(),
                    forall|k: int|
                        0 <= k < self.windows.len() && k != active ==> #[trigger] self@.windows[k]
                            == old(self)@.windows[k],
                decreases limit - i,
            {
                proof {
                    lemma_window_views();
                    lemma_skipped_keeps_steady(base, self.command_buffer@.take(i as int));
                    lemma_char_keeps_steady(
                        base.with_text_skipped(self.command_buffer@.take(i as int)),
                        self.command_buffer@[i as int],
                    );
                    assert(self.command_buffer@.take(i + 1).drop_last()
                        =~= self.command_buffer@.take(i as int));
                }
                let c = self.command_buffer[i];
                self.windows[active].draw_char_no_buf(c);
                i = i + 1;
            }
            proof {
                lemma_skipped_keeps_steady(base, self.command_buffer@.take(limit as int));
                assert(self@.windows =~= old(self)@.redrawn().windows);
            }
        }
    }
}

/// What a key press did.
pub struct KeyDone {
    pub shell: ShellView,
    pub root: NodeView,
    /// Images of the tree to write to disk, in this order.
    pub images: Seq<Seq<u8>>,
    /// Work on the hardware that has to be done before the command is
    /// finished.
    pub hardware: Option<HardwareView>,
    /// No further key is taken in this turn.
    pub stop: bool,
}

/// What a key press leaves to the caller.
pub struct KeyOutcome {
    pub images: Vec<Vec<u8>>,
    pub hardware: Option<Hardware>,
    pub stop: bool,
}

/// A title without the editor prefix in front of it, however often the
/// prefix is repeated.
pub open spec fn edited_file(title: Seq<char>) -> Seq<char>
    decreases title.len(),
{
    if crate::compositor::is_editor_title(title) {
        edited_file(title.skip(7))
    } else {
        title
    }
}

/// The status line after a save of `bytes` bytes.
pub open spec fn saved_status(bytes: nat) -> Seq<char> {
    "[ Saved "@ + decimal(bytes) + " bytes ]"@
}

/// The status line after a cut of `bytes` bytes.
pub open spec fn cut_status(bytes: nat) -> Seq<char> {
    "[ Cut "@ + decimal(bytes) + " characters ]"@
}

/// The status line after a paste of `bytes` bytes.
pub open spec fn uncut_status(bytes: nat) -> Seq<char> {
    "[ Uncut "@ + decimal(bytes) + " characters ]"@
}

/// The status line that shows where the cursor stands.
pub open spec fn position_status(win: WindowView) -> Seq<char> {
    "[ Line "@ + decimal((win.cursor_y / 18) as nat) + ", Col "@ + decimal(
        (win.cursor_x / 9) as nat,
    ) + " ]"@
}

/// The status line that lists the editor's keys.
pub open spec fn help_status() -> Seq<char> {
    "[ Shortcuts: ^O Save, ^X Exit, ^K Cut, ^U Paste, ^R Read ]"@
}

/// The clipboard without line feeds and carriage returns.
pub open spec fn on_one_line(text: Seq<char>) -> Seq<char>
    decreases text.len(),
{
    if text.len() == 0 {
        text
    } else if text.last() == '\n' || text.last() == '\r' {
        on_one_line(text.drop_last())
    } else {
        on_one_line(text.drop_last()).push(text.last())
    }
}

impl ShellView {
    /// The key goes to the editor: the active window is an editor window.
    pub open spec fn edits(self) -> bool {
        self.active() matches Some(win) && crate::compositor::is_editor_title(win.title)
    }

    /// The shell without its active window; the window in front of it
    /// becomes the active one where it was the last.
    pub open spec fn without_active(self) -> ShellView {
        if self.active_idx < self.windows.len() {
            ShellView {
                windows: self.windows.remove(self.active_idx as int),
                active_idx: if self.active_idx >= self.windows.len() - 1 {
                    if self.windows.len() == 1 {
                        0
                    } else {
                        (self.windows.len() - 2) as usize
                    }
                } else {
                    self.active_idx
                },
                ..self
            }
        } else {
            self
        }
    }

    /// What a key does in the editor.
    pub open spec fn edited(self, root: NodeView, c: char) -> KeyDone
        recommends
            self.edits(),
    {
        let win = self.windows[self.active_idx as int];
        let same = KeyDone {
            shell: self,
            root,
            images: Seq::empty(),
            hardware: None,
            stop: false,
        };
        if c == '\x08' {
            if win.text.len() > 0 {
                KeyDone {
                    shell: self.with_active(win.cleared().with_text(win.text.drop_last())),
                    ..same
                }
            } else {
                same
            }
        } else if c == '\x13' || c == '\x0F' {
            KeyDone {
                shell: ShellView {
                    nano_status: saved_status(vstd::utf8::encode_utf8(win.text).len()),
                    ..self
                },
                root: root.after_touch(
                    self.current_dir,
                    edited_file(win.title),
                    vstd::utf8::encode_utf8(win.text),
                ),
                images: seq![
                    disk_image(
                        root.after_touch(
                            self.current_dir,
                            edited_file(win.title),
                            vstd::utf8::encode_utf8(win.text),
                        ),
                    ),
                ],
                ..same
            }
        } else if c == '\x18' {
            KeyDone { shell: self.without_active(), stop: true, ..same }
        } else if c == '\x0B' {
            KeyDone {
                shell: (ShellView {
                    clipboard: win.text,
                    nano_status: cut_status(vstd::utf8::encode_utf8(win.text).len()),
                    ..self
                }).with_active(win.cleared()),
                ..same
            }
        } else if c == '\x15' {
            KeyDone {
                shell: (ShellView {
                    nano_status: uncut_status(vstd::utf8::encode_utf8(self.clipboard).len()),
                    ..self
                }).with_active(win.with_text(self.clipboard)),
                ..same
            }
        } else if c == '\x03' {
            KeyDone { shell: ShellView { nano_status: position_status(win), ..self }, ..same }
        } else if c == '\x07' {
            KeyDone { shell: ShellView { nano_status: help_status(), ..self }, ..same }
        } else if c == '\x12' {
            match crate::commands::file_text(root, self.current_dir, "import.txt"@) {
                crate::commands::FileText::Text(text, _) => KeyDone {
                    shell: (ShellView { nano_status: "[ Read import.txt ]"@, ..self }).with_active(
                        win.with_text(text),
                    ),
                    ..same
                },
                crate::commands::FileText::Binary(_) => same,
                crate::commands::FileText::Missing => KeyDone {
                    shell: ShellView { nano_status: "[ Error: import.txt not found ]"@, ..self },
                    ..same
                },
            }
        } else {
            KeyDone { shell: self.with_active(win.with_text(seq![c])), ..same }
        }
    }

    /// The shell with `c` put into the command line at the insertion
    /// point, which moves behind it.
    pub open spec fn typed(self, c: char) -> ShellView {
        ShellView {
            command: self.command.insert(self.insertion_point as int, c),
            insertion_point: (self.insertion_point + 1) as usize,
            ..self
        }
    }

    /// The shell with the characters of `text` put into the command line
    /// one after the other.
    pub open spec fn typed_all(self, text: Seq<char>) -> ShellView
        decreases text.len(),
    {
        if text.len() == 0 {
            self
        } else {
            self.typed_all(text.drop_last()).typed(text.last())
        }
    }

    /// The shell with the command line taken from the history at its
    /// present place, or emptied behind the last command, and the
    /// insertion point at the line's end.
    pub open spec fn recalled(self) -> ShellView {
        let command = if self.history_idx < self.history.len() {
            self.history[self.history_idx as int]
        } else {
            Seq::empty()
        };
        ShellView { command, insertion_point: command.len() as usize, ..self }
    }

    /// The shell after a command was finished: the command line is
    /// empty, and a new prompt stands in the active window.
    pub open spec fn prompted(self) -> ShellView {
        let at = match self.active() {
            Some(win) => ShellView {
                prompt_start_idx: win.text.len() as usize,
                prompt_start_y: win.cursor_y,
                ..self
            },
            None => self,
        };
        (ShellView { command: Seq::empty(), insertion_point: 0, ..at }).printed(prompt())
    }

    /// The shell after a key that changes the command line or moves in
    /// it: backspace takes out the character in front of the insertion
    /// point, delete the one behind it, the arrows move the point, and
    /// any other character is put in at the point. The line is drawn
    /// anew unless the key could do nothing.
    pub open spec fn line_edited(self, c: char) -> ShellView {
        if c == '\x08' {
            if self.insertion_point > 0 {
                (ShellView {
                    command: self.command.remove(self.insertion_point - 1),
                    insertion_point: (self.insertion_point - 1) as usize,
                    ..self
                }).redrawn()
            } else {
                self
            }
        } else if c == KEY_LEFT {
            if self.insertion_point > 0 {
                (ShellView {
                    insertion_point: (self.insertion_point - 1) as usize,
                    ..self
                }).redrawn()
            } else {
                self
            }
        } else if c == KEY_RIGHT {
            if self.insertion_point < self.command.len() {
                (ShellView {
                    insertion_point: (self.insertion_point + 1) as usize,
                    ..self
                }).redrawn()
            } else {
                self
            }
        } else if c == KEY_DELETE {
            if self.insertion_point < self.command.len() {
                (ShellView {
                    command: self.command.remove(self.insertion_point as int),
                    ..self
                }).redrawn()
            } else {
                self
            }
        } else {
            self.typed(c).redrawn()
        }
    }

    /// The shell after an arrow up or down: the command line shows the
    /// command before or after the present place in the history, or is
    /// empty behind the last command.
    pub open spec fn history_browsed(self, c: char) -> ShellView {
        if c == KEY_UP {
            if self.history.len() > 0 && self.history_idx > 0 {
                (ShellView {
                    history_idx: (self.history_idx - 1) as usize,
                    ..self
                }).recalled().redrawn()
            } else {
                self
            }
        } else {
            if self.history_idx < self.history.len() {
                (ShellView {
                    history_idx: (self.history_idx + 1) as usize,
                    ..self
                }).recalled().redrawn()
            } else {
                self
            }
        }
    }

    /// The shell after the active window's selection was copied: the
    /// clipboard holds the selected text and the selection is gone.
    pub open spec fn selection_copied(self) -> ShellView {
        match self.active() {
            Some(win) => (ShellView { clipboard: win.selected_text(), ..self }).with_active(
                WindowView {
                    selection_start: None,
                    selection_end: None,
                    is_selecting: false,
                    ..win
                },
            ),
            None => self,
        }
    }

    /// What the enter key does: the cursor goes to the next line and the
    /// command is carried out. A command that asks for work on the
    /// hardware stops the turn, to be finished when the work is done;
    /// any other command is finished at once.
    pub open spec fn entered(self, root: NodeView, ip: Seq<u8>) -> KeyDone {
        let done = self.printed("\n"@).executed(root, ip);
        KeyDone {
            shell: if done.hardware is Some {
                done.shell
            } else {
                done.shell.prompted()
            },
            root: done.root,
            images: self.printed("\n"@).images_left(root, ip),
            hardware: done.hardware,
            stop: done.hardware is Some,
        }
    }

    /// The shell after the tilde key: a new terminal where more than a
    /// billion cycles have passed since the last one was opened by key.
    pub open spec fn tilde(self, now: u64) -> ShellView {
        if now >= self.last_spawn_time && now - self.last_spawn_time > SPAWN_INTERVAL {
            self.with_terminal()
        } else {
            self
        }
    }

    /// What a key does on the command line, at a time when the cycle
    /// counter stands at `now`.
    pub open spec fn commanded(self, root: NodeView, ip: Seq<u8>, now: u64, c: char) -> KeyDone {
        if c == '\n' {
            self.entered(root, ip)
        } else {
            KeyDone {
                shell: if c == KEY_UP || c == KEY_DOWN {
                    self.history_browsed(c)
                } else if c == KEY_COPY {
                    self.selection_copied()
                } else if c == KEY_PASTE {
                    self.typed_all(on_one_line(self.clipboard)).redrawn()
                } else if c == '~' {
                    self.tilde(now)
                } else {
                    self.line_edited(c)
                },
                root,
                images: Seq::empty(),
                hardware: None,
                stop: false,
            }
        }
    }

    /// What a key does: it goes to the editor where the active window is
    /// an editor window, else to the command line.
    #[verifier::opaque]
    pub open spec fn after_key(self, root: NodeView, ip: Seq<u8>, now: u64, c: char) -> KeyDone {
        if self.edits() {
            self.edited(root, c)
        } else {
            self.commanded(root, ip, now, c)
        }
    }
}

/// The view of what a key press leaves to the caller.
pub open spec fn key_view(shell: ShellView, root: NodeView, outcome: KeyOutcome) -> KeyDone {
    KeyDone {
        shell,
        root,
        images: image_views(outcome.images@),
        hardware: match outcome.hardware {
            Some(h) => Some(h@),
            None => None,
        },
        stop: outcome.stop,
    }
}

impl Shell {
    /// Tells whether the characters from place `from` on start with the
    /// editor prefix.
    fn prefixed_at(chars: &Vec<char>, from: usize) -> (r: bool)
        requires
            from <= chars.len(),
        ensures
            r == crate::compositor::is_editor_title(chars@.skip(from as int)),
    {
        let r = chars.len() - from >= 7 && chars[from] == 'N' && chars[from + 1] == 'a' && chars[from
            + 2] == 'n' && chars[from + 3] == 'o' && chars[from + 4] == ' ' && chars[from + 5]
            == '-' && chars[from + 6] == ' ';
        proof {
            let rest = chars@.skip(from as int);
            if r {
                assert(rest.subrange(0, 7) =~= crate::compositor::editor_prefix());
            } else if rest.len() >= 7 && rest.subrange(0, 7) == crate::compositor::editor_prefix() {
                assert(rest.subrange(0, 7)[0] == 'N');
                assert(rest.subrange(0, 7)[1] == 'a');
                assert(rest.subrange(0, 7)[2] == 'n');
                assert(rest.subrange(0, 7)[3] == 'o');
                assert(rest.subrange(0, 7)[4] == ' ');
                assert(rest.subrange(0, 7)[5] == '-');
                assert(rest.subrange(0, 7)[6] == ' ');
            }
        }
        r
    }

    /// The title without the editor prefix.
    fn file_of(title: &str) -> (name: String)
        ensures
            name@ == edited_file(title@),
    {
        let chars = chars_of(title);
        let mut from: usize = 0;
        proof {
            assert(chars@.skip(0) =~= chars@);
        }
        while Shell::prefixed_at(&chars, from)
            invariant
                from <= chars.len(),
                chars@ == title@,
                edited_file(title@) == edited_file(chars@.skip(from as int)),
            decreases chars.len() - from,
        {
            proof {
                assert(chars@.skip(from as int).skip(7) =~= chars@.skip(from + 7));
            }
            from = from + 7;
        }
        proof {
            assert(chars@.subrange(from as int, chars.len() as int) =~= chars@.skip(from as int));
        }
        crate::strings::string_of(&chars, from, chars.len())
    }

    /// The status line made of `before`, a number and `after`.
    fn counted(before: &str, n: usize, after: &str) -> (s: String)
        ensures
            s@ == before@ + decimal(n as nat) + after@,
    {
        let mut s = String::new();
        s.append(before);
        crate::text::push_decimal_wide(&mut s, n as u128);
        s.append(after);
        proof {
            assert(s@ =~= before@ + decimal(n as nat) + after@);
        }
        s
    }

    /// Closes the active window.
    fn close_active(&mut self)
        requires
            old(self).wf(),
            old(self).active_idx < old(self).windows.len(),
        ensures
            final(self)@ == old(self)@.without_active(),
            final(self).wf(),
    {
        proof {
            lemma_window_views();
        }
        let _ = self.windows.remove(self.active_idx);
        if self.active_idx >= self.windows.len() {
            self.active_idx = if self.windows.len() == 0 {
                0
            } else {
                self.windows.len() - 1
            };
        }
    }

    /// Editor, backspace: takes the last character off the text and
    /// prints the text anew.
    fn edit_backspace(&mut self)
        requires
            old(self).wf(),
            old(self)@.edits(),
        ensures
            final(self)@ == (if old(self)@.windows[old(self).active_idx as int].text.len() > 0 {
                old(self)@.with_active(
                    old(self)@.windows[old(self).active_idx as int].cleared().with_text(
                        old(self)@.windows[old(self).active_idx as int].text.drop_last(),
                    ),
                )
            } else {
                old(self)@
            }),
            final(self).wf(),
    {
        proof {
            lemma_window_views();
        }
        let active = self.active_idx;
        let ghost win = self@.windows[active as int];
        proof {
            assert(win.steady());
            lemma_cleared_is_steady(win);
        }
        let text = chars_of(self.windows[active].text_buffer.as_str());
        if text.len() > 0 {
            let kept = crate::strings::string_of(&text, 0, text.len() - 1);
            proof {
                assert(text@.subrange(0, text.len() - 1) =~= win.text.drop_last());
            }
            self.windows[active].clear();
            self.windows[active].print(kept.as_str());
            proof {
                assert(self@.windows =~= old(self)@.windows.update(
                    active as int,
                    win.cleared().with_text(win.text.drop_last()),
                ));
            }
        }
    }

    /// Editor, save: writes the text into the file the window is named
    /// after and gives the image of the tree to write to disk.
    fn edit_save(&mut self, root: &mut Node) -> (image: Vec<u8>)
        requires
            old(self).wf(),
            old(self)@.edits(),
        ensures
            final(self)@ == (ShellView {
                nano_status: saved_status(
                    vstd::utf8::encode_utf8(
                        old(self)@.windows[old(self).active_idx as int].text,
                    ).len(),
                ),
                ..old(self)@
            }),
            final(root)@ == old(root)@.after_touch(
                old(self)@.current_dir,
                edited_file(old(self)@.windows[old(self).active_idx as int].title),
                vstd::utf8::encode_utf8(old(self)@.windows[old(self).active_idx as int].text),
            ),
            image@ == disk_image(final(root)@),
            final(self).wf(),
    {
        proof {
            lemma_window_views();
        }
        let active = self.active_idx;
        let filename = Shell::file_of(self.windows[active].title.as_str());
        let content = self.windows[active].text_buffer.clone();
        let bytes = content.as_str().as_bytes_vec();
        let len = bytes.len();
        let dir = self.current_dir.clone();
        let _ = touch(root, dir.as_str(), filename.as_str(), bytes);
        let image = save_to_disk(root);
        self.nano_status = Shell::counted("[ Saved ", len, " bytes ]");
        image
    }

    /// Editor, cut: takes the text to the clipboard and blanks the
    /// window.
    fn edit_cut(&mut self)
        requires
            old(self).wf(),
            old(self)@.edits(),
        ensures
            final(self)@ == (ShellView {
                clipboard: old(self)@.windows[old(self).active_idx as int].text,
                nano_status: cut_status(
                    vstd::utf8::encode_utf8(
                        old(self)@.windows[old(self).active_idx as int].text,
                    ).len(),
                ),
                ..old(self)@
            }).with_active(old(self)@.windows[old(self).active_idx as int].cleared()),
            final(self).wf(),
    {
        proof {
            lemma_window_views();
        }
        let active = self.active_idx;
        let ghost win = self@.windows[active as int];
        proof {
            assert(win.steady());
            lemma_cleared_is_steady(win);
        }
        self.clipboard = self.windows[active].text_buffer.clone();
        self.windows[active].clear();
        let len = self.clipboard.as_str().as_bytes_vec().len();
        self.nano_status = Shell::counted("[ Cut ", len, " characters ]");
        proof {
            assert(self@.windows =~= old(self)@.windows.update(active as int, win.cleared()));
        }
    }

    /// Editor: prints `text` in the window and sets the status line.
    fn edit_insert(&mut self, text: &str, status: String)
        requires
            old(self).wf(),
            old(self)@.edits(),
        ensures
            final(self)@ == (ShellView { nano_status: status@, ..old(self)@ }).with_active(
                old(self)@.windows[old(self).active_idx as int].with_text(text@),
            ),
            final(self).wf(),
    {
        proof {
            lemma_window_views();
        }
        let active = self.active_idx;
        let ghost win = self@.windows[active as int];
        proof {
            assert(win.steady());
        }
        self.windows[active].print(text);
        self.nano_status = status;
        proof {
            assert(self@.windows =~= old(self)@.windows.update(active as int, win.with_text(text@)));
        }
    }

    /// Editor, cursor position: shows line and column in the status line.
    fn edit_position(&mut self)
        requires
            old(self).wf(),
            old(self)@.edits(),
        ensures
            final(self)@ == (ShellView {
                nano_status: position_status(old(self)@.windows[old(self).active_idx as int]),
                ..old(self)@
            }),
            final(self).wf(),
    {
        proof {
            lemma_window_views();
        }
        let active = self.active_idx;
        let line = self.windows[active].cursor_y / 18;
        let column = self.windows[active].cursor_x / 9;
        let mut status = String::new();
        status.append("[ Line ");
        crate::text::push_decimal_wide(&mut status, line as u128);
        status.append(", Col ");
        crate::text::push_decimal_wide(&mut status, column as u128);
        status.append(" ]");
        proof {
            assert(status@ =~= position_status(self@.windows[active as int]));
        }
        self.nano_status = status;
    }

    /// Editor, read: prints the file `import.txt` of the current
    /// directory in the window.
    fn edit_read(&mut self, root: &Node)
        requires
            old(self).wf(),
            old(self)@.edits(),
        ensures
            final(self)@ == old(self)@.edited(root@, '\x12').shell,
            final(self).wf(),
    {
        let dir = self.current_dir.clone();
        let name = chars_of("import.txt");
        let ghost status = self@.nano_status;
        match crate::commands::read_text(root, dir.as_str(), &name) {
            crate::commands::FileContent::Text(text, _) => {
                let s = to_string(&text);
                self.edit_insert(s.as_str(), "[ Read import.txt ]".to_owned());
            },
            crate::commands::FileContent::Binary(_) => {},
            crate::commands::FileContent::Missing => {
                self.nano_status = "[ Error: import.txt not found ]".to_owned();
            },
        }
    }

    /// Takes a key in the editor.
    fn edit(&mut self, root: &mut Node, c: char) -> (outcome: KeyOutcome)
        requires
            old(self).wf(),
            old(self)@.edits(),
        ensures
            key_view(final(self)@, final(root)@, outcome) == old(self)@.edited(old(root)@, c),
            final(self).wf(),
    {
        let mut images: Vec<Vec<u8>> = Vec::new();
        proof {
            assert(image_views(images@) =~= Seq::<Seq<u8>>::empty());
        }
        let mut stop = false;
        if c == '\x08' {
            self.edit_backspace();
        } else if c == '\x13' || c == '\x0F' {
            let image = self.edit_save(root);
            images.push(image);
            proof {
                assert(image_views(images@) =~= seq![disk_image(root@)]);
            }
        } else if c == '\x18' {
            self.close_active();
            stop = true;
        } else if c == '\x0B' {
            self.edit_cut();
        } else if c == '\x15' {
            let clip = self.clipboard.clone();
            let status = Shell::counted(
                "[ Uncut ",
                clip.as_str().as_bytes_vec().len(),
                " characters ]",
            );
            self.edit_insert(clip.as_str(), status);
        } else if c == '\x03' {
            self.edit_position();
        } else if c == '\x07' {
            self.nano_status = "[ Shortcuts: ^O Save, ^X Exit, ^K Cut, ^U Paste, ^R Read ]".to_owned();
        } else if c == '\x12' {
            self.edit_read(root);
        } else {
            let mut s = String::new();
            push_char(&mut s, c);
            proof {
                assert(s@ =~= seq![c]);
            }
            let status = self.nano_status.clone();
            self.edit_insert(s.as_str(), status);
        }
        KeyOutcome { images, hardware: None, stop }
    }

    /// Finishes a command: empties the command line and prints a new
    /// prompt in the active window.
    pub fn finish_command(&mut self)
        requires
            old(self).wf(),
        ensures
            final(self)@ == old(self)@.prompted(),
            final(self).wf(),
    {
        proof {
            lemma_window_views();
        }
        self.command_buffer = Vec::new();
        self.insertion_point = 0;
        if self.active_idx < self.windows.len() {
            proof {
                assert(self@.windows[self.active_idx as int].steady());
            }
            self.prompt_start_idx = self.windows[self.active_idx].text_buffer.as_str().unicode_len();
            self.prompt_start_y = self.windows[self.active_idx].cursor_y;
        }
        self.print("> ");
    }

    /// Takes the clipboard into the command line, without its line feeds
    /// and carriage returns.
    fn paste(&mut self)
        requires
            old(self).wf(),
        ensures
            final(self)@ == old(self)@.typed_all(on_one_line(old(self)@.clipboard)),
            final(self).wf(),
    {
        let clip = chars_of(self.clipboard.as_str());
        let mut i: usize = 0;
        proof {
            assert(clip@.take(0) =~= Seq::<char>::empty());
        }
        while i < clip.len()
            invariant
                i <= clip.len(),
                clip@ == old(self)@.clipboard,
                self.wf(),
                self@ == old(self)@.typed_all(on_one_line(clip@.take(i as int))),
            decreases clip.len() - i,
        {
            proof {
                assert(clip@.take(i + 1).drop_last() =~= clip@.take(i as int));
            }
            let c = clip[i];
            if !(c == '\n' || c == '\r') {
                proof {
                    assert(on_one_line(clip@.take(i + 1)).drop_last() =~= on_one_line(
                        clip@.take(i as int),
                    ));
                }
                self.command_buffer.insert(self.insertion_point, c);
                proof {
                    assert(self.insertion_point < self.command_buffer.len());
                }
                self.insertion_point += 1;
            }
            i = i + 1;
        }
        proof {
            assert(clip@.take(clip.len() as int) =~= clip@);
        }
    }

    /// Command line, enter: goes to the next line and carries out the
    /// command; where no work on the hardware is pending, the command is
    /// finished too.
    fn enter(&mut self, root: &mut Node, ip: [u8; 4]) -> (outcome: KeyOutcome)
        requires
            old(self).wf(),
        ensures
            key_view(final(self)@, final(root)@, outcome) == old(self)@.entered(old(root)@, ip@),
            final(self).wf(),
    {
        self.print("\n");
        let outcome = self.execute_command(root, ip);
        let pending = outcome.hardware.is_some();
        if !pending {
            self.finish_command();
        }
        KeyOutcome { images: outcome.images, hardware: outcome.hardware, stop: pending }
    }

    /// Command line, keys that change the line or move in it.
    fn edit_line(&mut self, c: char)
        requires
            old(self).wf(),
        ensures
            final(self)@ == old(self)@.line_edited(c),
            final(self).wf(),
    {
        if c == '\x08' {
            if self.insertion_point > 0 {
                self.insertion_point -= 1;
                let _ = self.command_buffer.remove(self.insertion_point);
                self.redraw_command_line();
            }
        } else if c == KEY_LEFT {
            if self.insertion_point > 0 {
                self.insertion_point -= 1;
                self.redraw_command_line();
            }
        } else if c == KEY_RIGHT {
            if self.insertion_point < self.command_buffer.len() {
                self.insertion_point += 1;
                self.redraw_command_line();
            }
        } else if c == KEY_DELETE {
            if self.insertion_point < self.command_buffer.len() {
                let _ = self.command_buffer.remove(self.insertion_point);
                self.redraw_command_line();
            }
        } else {
            self.command_buffer.insert(self.insertion_point, c);
            proof {
                assert(self.insertion_point < self.command_buffer.len());
            }
            self.insertion_point += 1;
            self.redraw_command_line();
        }
    }

    /// Command line, arrow up and down: goes through the history.
    fn browse_history(&mut self, c: char)
        requires
            old(self).wf(),
        ensures
            final(self)@ == old(self)@.history_browsed(c),
            final(self).wf(),
    {
        if c == KEY_UP {
            if self.history.len() > 0 && self.history_idx > 0 {
                self.history_idx -= 1;
                self.command_buffer = chars_of(self.history[self.history_idx].as_str());
                self.insertion_point = self.command_buffer.len();
                self.redraw_command_line();
            }
        } else {
            if self.history_idx < self.history.len() {
                self.history_idx += 1;
                if self.history_idx < self.history.len() {
                    self.command_buffer = chars_of(self.history[self.history_idx].as_str());
                } else {
                    self.command_buffer = Vec::new();
                }
                self.insertion_point = self.command_buffer.len();
                self.redraw_command_line();
            }
        }
    }

    /// Command line, copy: takes the active window's selection to the
    /// clipboard and drops the selection.
    fn copy_selection(&mut self)
        requires
            old(self).wf(),
        ensures
            final(self)@ == old(self)@.selection_copied(),
            final(self).wf(),
    {
        proof {
            lemma_window_views();
        }
        if self.active_idx < self.windows.len() {
            let ghost win = self@.windows[self.active_idx as int];
            self.clipboard = self.windows[self.active_idx].get_selected_text();
            self.windows[self.active_idx].clear_selection();
            proof {
                assert(self@.windows =~= old(self)@.windows.update(
                    self.active_idx as int,
                    WindowView {
                        selection_start: None,
                        selection_end: None,
                        is_selecting: false,
                        ..win
                    },
                ));
            }
        }
    }

    /// Takes a key on the command line.
    fn command(&mut self, root: &mut Node, ip: [u8; 4], now: u64, c: char) -> (outcome: KeyOutcome)
        requires
            old(self).wf(),
        ensures
            key_view(final(self)@, final(root)@, outcome) == old(self)@.commanded(
                old(root)@,
                ip@,
                now,
                c,
            ),
            final(self).wf(),
    {
        let mut images: Vec<Vec<u8>> = Vec::new();
        proof {
            assert(image_views(images@) =~= Seq::<Seq<u8>>::empty());
        }
        if c == '\n' {
            return self.enter(root, ip);
        } else if c == KEY_UP || c == KEY_DOWN {
            self.browse_history(c);
        } else if c == KEY_COPY {
            self.copy_selection();
        } else if c == KEY_PASTE {
            self.paste();
            self.redraw_command_line();
        } else if c == '~' {
            if now >= self.last_spawn_time && now - self.last_spawn_time > SPAWN_INTERVAL {
                self.spawn_terminal();
            }
        } else {
            self.edit_line(c);
        }
        KeyOutcome { images, hardware: None, stop: false }
    }

    /// Takes one key: in the editor where the active window is an editor
    /// window, else on the command line. `now` is the cycle counter's
    /// reading.
    pub fn handle_key(&mut self, root: &mut Node, ip: [u8; 4], now: u64, c: char) -> (outcome:
        KeyOutcome)
        requires
            old(self).wf(),
        ensures
            key_view(final(self)@, final(root)@, outcome) == old(self)@.after_key(
                old(root)@,
                ip@,
                now,
                c,
            ),
            final(self).wf(),
    {
        proof {
            lemma_window_views();
            reveal(ShellView::after_key);
        }
        if self.active_idx < self.windows.len() && crate::compositor::has_editor_title(
            self.windows[self.active_idx].title.as_str(),
        ) {
            self.edit(root, c)
        } else {
            self.command(root, ip, now, c)
        }
    }
}

/// What a turn of the shell did.
pub struct RunDone {
    pub shell: ShellView,
    pub root: NodeView,
    /// Images of the tree to write to disk, in this order.
    pub images: Seq<Seq<u8>>,
    /// Work on the hardware that stopped the turn.
    pub hardware: Option<HardwareView>,
    /// Keys that still wait.
    pub keys: Seq<char>,
    /// Log messages that still wait.
    pub log: Seq<Seq<char>>,
    /// Keys taken in this turn.
    pub processed: nat,
}

/// What a turn of the shell leaves to the caller.
pub struct Turn {
    pub images: Vec<Vec<u8>>,
    /// Work on the hardware that stopped the turn: once it is done, the
    /// command is to be finished and the turn resumed.
    pub hardware: Option<Hardware>,
    /// Keys taken in this turn so far.
    pub processed: usize,
}

impl ShellView {
    /// The shell after the texts were printed in the active window, one
    /// after the other.
    pub open spec fn printed_all(self, all: Seq<Seq<char>>) -> ShellView
        decreases all.len(),
    {
        if all.len() == 0 {
            self
        } else {
            self.printed_all(all.drop_last()).printed(all.last())
        }
    }

    /// What a turn does that has taken `processed` keys already: keys
    /// are taken from the queue one by one; the eleventh key ends the
    /// taking and is lost. A key that closes the editor ends the turn at
    /// once, as does a command that asks for work on the hardware.
    /// Otherwise the turn ends with the waiting log messages printed in
    /// the active window.
    pub open spec fn ran(
        self,
        root: NodeView,
        ip: Seq<u8>,
        now: u64,
        keys: Seq<char>,
        log: Seq<Seq<char>>,
        processed: nat,
        images: Seq<Seq<u8>>,
    ) -> RunDone
        decreases keys.len(),
    {
        if keys.len() == 0 {
            RunDone {
                shell: self.printed_all(log),
                root,
                images,
                hardware: None,
                keys,
                log: Seq::empty(),
                processed,
            }
        } else if processed >= KEYS_PER_TURN {
            RunDone {
                shell: self.printed_all(log),
                root,
                images,
                hardware: None,
                keys: keys.drop_first(),
                log: Seq::empty(),
                processed,
            }
        } else {
            let done = self.after_key(root, ip, now, keys[0]);
            if done.stop {
                RunDone {
                    shell: done.shell,
                    root: done.root,
                    images: images + done.images,
                    hardware: done.hardware,
                    keys: keys.drop_first(),
                    log,
                    processed: processed + 1,
                }
            } else {
                done.shell.ran(
                    done.root,
                    ip,
                    now,
                    keys.drop_first(),
                    log,
                    processed + 1,
                    images + done.images,
                )
            }
        }
    }
}

impl Shell {
    /// Prints the waiting log messages in the active window.
    fn show_log(&mut self, logger: &mut Logger)
        requires
            old(self).wf(),
        ensures
            final(self)@ == old(self)@.printed_all(old(logger).messages()),
            final(logger).messages() == Seq::<Seq<char>>::empty(),
            final(self).wf(),
    {
        let logs = drain(logger);
        let mut i: usize = 0;
        proof {
            assert(crate::logger::texts(logs@).take(0) =~= Seq::<Seq<char>>::empty());
        }
        while i < logs.len()
            invariant
                i <= logs.len(),
                self.wf(),
                crate::logger::texts(logs@) == old(logger).messages(),
                self@ == old(self)@.printed_all(crate::logger::texts(logs@).take(i as int)),
            decreases logs.len() - i,
        {
            proof {
                assert(crate::logger::texts(logs@).take(i + 1).drop_last()
                    =~= crate::logger::texts(logs@).take(i as int));
            }
            self.print(logs[i].as_str());
            i = i + 1;
        }
        proof {
            assert(crate::logger::texts(logs@).take(logs.len() as int) =~= crate::logger::texts(
                logs@,
            ));
        }
    }

    /// Goes on with a turn that has taken `processed` keys: takes keys
    /// from the queue, ten per turn at most, and prints the waiting log
    /// messages at the end. The turn stops early, without printing the
    /// log, when a key closes the editor or a command asks for work on
    /// the hardware.
    pub fn resume(
        &mut self,
        processed: usize,
        buffer: &mut KeyboardBuffer,
        logger: &mut Logger,
        root: &mut Node,
        ip: [u8; 4],
        now: u64,
    ) -> (turn: Turn)
        requires
            old(self).wf(),
            processed <= KEYS_PER_TURN,
        ensures
            (RunDone {
                shell: final(self)@,
                root: final(root)@,
                images: image_views(turn.images@),
                hardware: match turn.hardware {
                    Some(h) => Some(h@),
                    None => None,
                },
                keys: final(buffer).waiting(),
                log: final(logger).messages(),
                processed: turn.processed as nat,
            }) == old(self)@.ran(
                old(root)@,
                ip@,
                now,
                old(buffer).waiting(),
                old(logger).messages(),
                processed as nat,
                Seq::empty(),
            ),
            final(self).wf(),
            turn.processed <= KEYS_PER_TURN,
    {
        let mut images: Vec<Vec<u8>> = Vec::new();
        let mut count = processed;
        proof {
            assert(image_views(images@) =~= Seq::<Seq<u8>>::empty());
        }
        loop
            invariant
                self.wf(),
                count <= KEYS_PER_TURN,
                logger.messages() == old(logger).messages(),
                old(self)@.ran(
                    old(root)@,
                    ip@,
                    now,
                    old(buffer).waiting(),
                    old(logger).messages(),
                    processed as nat,
                    Seq::empty(),
                ) == self@.ran(
                    root@,
                    ip@,
                    now,
                    buffer.waiting(),
                    logger.messages(),
                    count as nat,
                    image_views(images@),
                ),
            decreases buffer.waiting().len(),
        {
            match pop_key(buffer) {
                Some(c) => {
                    if count >= KEYS_PER_TURN {
                        self.show_log(logger);
                        return Turn { images, hardware: None, processed: count };
                    }
                    count = count + 1;
                    let ghost before = image_views(images@);
                    let outcome = self.handle_key(root, ip, now, c);
                    let stop = outcome.stop;
                    let hardware = outcome.hardware;
                    let mut added = outcome.images;
                    let ghost new_images = image_views(added@);
                    images.append(&mut added);
                    proof {
                        assert(image_views(images@) =~= before + new_images);
                    }
                    if stop {
                        return Turn { images, hardware, processed: count };
                    }
                },
                None => {
                    self.show_log(logger);
                    return Turn { images, hardware: None, processed: count };
                },
            }
        }
    }

    /// One turn of the shell: takes up to ten keys from the queue and
    /// prints the waiting log messages.
    pub fn run(
        &mut self,
        buffer: &mut KeyboardBuffer,
        logger: &mut Logger,
        root: &mut Node,
        ip: [u8; 4],
        now: u64,
    ) -> (turn: Turn)
        requires
            old(self).wf(),
        ensures
            (RunDone {
                shell: final(self)@,
                root: final(root)@,
                images: image_views(turn.images@),
                hardware: match turn.hardware {
                    Some(h) => Some(h@),
                    None => None,
                },
                keys: final(buffer).waiting(),
                log: final(logger).messages(),
                processed: turn.processed as nat,
            }) == old(self)@.ran(
                old(root)@,
                ip@,
                now,
                old(buffer).waiting(),
                old(logger).messages(),
                0,
                Seq::empty(),
            ),
            final(self).wf(),
    {
        self.resume(0, buffer, logger, root, ip, now)
    }
}

/// The word that shows a task's status.
pub open spec fn status_word(status: TaskStatus) -> Seq<char> {
    match status {
        TaskStatus::Waiting => "WAIT"@,
        TaskStatus::Success => "OK"@,
        TaskStatus::Failure => "FAIL"@,
        TaskStatus::Penalty => "PENT"@,
    }
}

/// The row the monitor shows for a task: place, name, status and the
/// cost of the last turn, in columns.
pub open spec fn task_row(task: TaskInfo) -> Seq<char> {
    right_aligned(decimal(task.index as nat), 2) + "   "@ + left_aligned(task.name@, 12) + "  "@
        + left_aligned(status_word(task.status), 4) + "      "@ + right_aligned(
        decimal(task.last_cost as nat),
        8,
    ) + "\n"@
}

/// The rows the monitor shows for the first `upto` tasks.
pub open spec fn task_rows(tasks: Seq<TaskInfo>, upto: nat) -> Seq<char>
    decreases upto,
{
    if upto == 0 || upto > tasks.len() {
        Seq::empty()
    } else {
        task_rows(tasks, (upto - 1) as nat) + task_row(tasks[upto - 1])
    }
}

/// What the monitor shows: the heap's use in kibibytes and a row for
/// every task.
pub open spec fn monitor_text(used: usize, total: usize, tasks: Seq<TaskInfo>) -> Seq<char> {
    "TASK MANAGER\n"@ + "----------------------------------\n"@ + "Memory: "@ + decimal(
        (used / 1024) as nat,
    ) + " / "@ + decimal((total / 1024) as nat) + " KB\n\n"@
        + "ID   NAME          STATUS    COST\n"@ + task_rows(tasks, tasks.len())
}

/// The lines the explorer shows for the first `upto` entries.
pub open spec fn explorer_lines(items: Seq<(Seq<char>, bool)>, upto: nat) -> Seq<char>
    decreases upto,
{
    if upto == 0 || upto > items.len() {
        Seq::empty()
    } else {
        explorer_lines(items, (upto - 1) as nat) + (if items[upto - 1].1 {
            " [DIR]  "@
        } else {
            " [FILE] "@
        }) + items[upto - 1].0 + "\n"@
    }
}

/// What the explorer shows for a directory.
pub open spec fn explorer_text(root: NodeView, dir: Seq<char>) -> Seq<char> {
    "EXPLORER: "@ + dir + "\n"@ + "----------------------------------\n\n"@ + (match root.dir_at(
        dir,
    ) {
        Some(d) => explorer_lines(listing_of(d.children()), d.children().len()),
        None => "Error: Could not list directory.\n"@,
    }) + "\n----------------------------------\n"@ + "Double-click to open (Simulated)\n"@
}

/// The first row of keys the editor shows.
pub open spec fn editor_keys_upper() -> Seq<char> {
    "^G Help  ^O WriteOut ^W WhereIs ^K Cut    ^J Justify ^C CurPos"@
}

/// The second row of keys the editor shows.
pub open spec fn editor_keys_lower() -> Seq<char> {
    "^X Exit  ^R ReadFile ^\u{005C} Replace ^U Uncut  ^T ToSpell ^_ GoToLine"@
}

impl WindowView {
    /// The editor window with its status bar, black on white, and the
    /// two rows of keys below it.
    pub open spec fn with_editor_bars(self, status: Seq<char>) -> WindowView {
        self.with_rect(2, self.height - 50, self.width - 4, 18, TEXT_COLOR).with_lettering(
            5,
            self.height - 48,
            status,
            CONTENT_COLOR,
        ).with_rect(2, self.height - 32, self.width - 4, 30, CONTENT_COLOR).with_lettering(
            5,
            self.height - 30,
            editor_keys_upper(),
            TEXT_COLOR,
        ).with_lettering(5, self.height - 15, editor_keys_lower(), TEXT_COLOR)
    }

    /// The window with `text` drawn in `color` on one line that starts
    /// at `(x, y)`.
    pub open spec fn with_lettering(self, x: int, y: int, text: Seq<char>, color: u32) -> WindowView {
        WindowView { data: lettered(self.data, self.width as int, text, x, y, color), ..self }
    }
}

impl Shell {
    /// The monitor's row for a task.
    fn row_of(task: &TaskInfo) -> (row: String)
        ensures
            row@ == task_row(*task),
    {
        let mut text = String::new();
        crate::text::push_decimal_right(&mut text, task.index as u64, 2);
        text.append("   ");
        push_left(&mut text, task.name.as_str(), 12);
        text.append("  ");
        match task.status {
            TaskStatus::Waiting => push_left(&mut text, "WAIT", 4),
            TaskStatus::Success => push_left(&mut text, "OK", 4),
            TaskStatus::Failure => push_left(&mut text, "FAIL", 4),
            TaskStatus::Penalty => push_left(&mut text, "PENT", 4),
        }
        text.append("      ");
        push_decimal_right(&mut text, task.last_cost, 8);
        text.append("\n");
        proof {
            assert(text@ =~= task_row(*task));
        }
        text
    }

    /// Shows the monitor in `win`: the heap's use and a row for every
    /// task. The window, once cleared, has to take the text: any window
    /// that takes text of any length does, and so does one that takes a
    /// text as long as this one.
    pub fn update_monitor(win: &mut Window, heap: (usize, usize), tasks: &Vec<TaskInfo>)
        requires
            old(win)@.steady() || old(win)@.cleared().can_type(
                monitor_text(heap.0, heap.1, tasks@).len() as int,
            ),
        ensures
            final(win)@ == old(win)@.cleared().with_text(monitor_text(heap.0, heap.1, tasks@)),
            old(win)@.steady() ==> final(win)@.steady(),
    {
        proof {
            if win@.steady() {
                lemma_cleared_is_steady(win@);
            }
        }
        win.clear();
        let mut text = String::new();
        text.append("TASK MANAGER\n");
        text.append("----------------------------------\n");
        text.append("Memory: ");
        crate::text::push_decimal_wide(&mut text, (heap.0 / 1024) as u128);
        text.append(" / ");
        crate::text::push_decimal_wide(&mut text, (heap.1 / 1024) as u128);
        text.append(" KB\n\n");
        text.append("ID   NAME          STATUS    COST\n");
        let ghost head = text@;
        proof {
            assert(head =~= "TASK MANAGER\n"@ + "----------------------------------\n"@
                + "Memory: "@ + decimal((heap.0 / 1024) as nat) + " / "@ + decimal(
                (heap.1 / 1024) as nat,
            ) + " KB\n\n"@ + "ID   NAME          STATUS    COST\n"@);
        }
        let mut i: usize = 0;
        while i < tasks.len()
            invariant
                i <= tasks.len(),
                text@ == head + task_rows(tasks@, i as nat),
            decreases tasks.len() - i,
        {
            let row = Shell::row_of(&tasks[i]);
            text.append(row.as_str());
            i = i + 1;
            proof {
                assert(text@ =~= head + task_rows(tasks@, i as nat));
            }
        }
        win.print(text.as_str());
    }

    /// The browser window needs no upkeep: nothing changes.
    pub fn update_browser(win: &mut Window)
        ensures
            *final(win) == *old(win),
    {
    }

    /// Shows the directory `current_dir` of the tree in `win`. The
    /// window, once cleared, has to take the text: any window that takes
    /// text of any length does, and so does one that takes a text as long
    /// as this one.
    pub fn update_explorer(win: &mut Window, root: &Node, current_dir: &str)
        requires
            old(win)@.steady() || old(win)@.cleared().can_type(
                explorer_text(root@, current_dir@).len() as int,
            ),
        ensures
            final(win)@ == old(win)@.cleared().with_text(explorer_text(root@, current_dir@)),
            old(win)@.steady() ==> final(win)@.steady(),
    {
        proof {
            if win@.steady() {
                lemma_cleared_is_steady(win@);
            }
        }
        win.clear();
        let mut text = String::new();
        text.append("EXPLORER: ");
        text.append(current_dir);
        text.append("\n");
        text.append("----------------------------------\n\n");
        let ghost head = text@;
        match ls(root, current_dir) {
            Some(items) => {
                let mut i: usize = 0;
                while i < items.len()
                    invariant
                        i <= items.len(),
                        text@ == head + explorer_lines(listing_view(items@), i as nat),
                    decreases items.len() - i,
                {
                    if items[i].1 {
                        text.append(" [DIR]  ");
                    } else {
                        text.append(" [FILE] ");
                    }
                    text.append(items[i].0.as_str());
                    text.append("\n");
                    i = i + 1;
                    proof {
                        assert(text@ =~= head + explorer_lines(listing_view(items@), i as nat));
                    }
                }
            },
            None => {
                text.append("Error: Could not list directory.\n");
            },
        }
        text.append("\n----------------------------------\n");
        text.append("Double-click to open (Simulated)\n");
        proof {
            assert(text@ =~= explorer_text(root@, current_dir@));
        }
        win.print(text.as_str());
    }

    /// Draws the editor's status bar with `status` and the two rows of
    /// keys at the bottom of `win`.
    pub fn update_nano(win: &mut Window, status: &str)
        requires
            old(win).has_buffer(),
            old(win).height >= 50,
            old(win).width >= 4,
            5 + GLYPH_WIDTH * status@.len() <= usize::MAX,
        ensures
            final(win)@ == old(win)@.with_editor_bars(status@),
    {
        let w = win.width;
        let h = win.height;
        win.draw_rect(2, h - 50, w - 4, 18, 0xFFFFFFFF);
        win.print_fixed(5, h - 48, status, 0xFF000000);
        win.draw_rect(2, h - 32, w - 4, 30, 0xFF000000);
        proof {
            reveal_strlit("^G Help  ^O WriteOut ^W WhereIs ^K Cut    ^J Justify ^C CurPos");
            reveal_strlit("^X Exit  ^R ReadFile ^\u{005C} Replace ^U Uncut  ^T ToSpell ^_ GoToLine");
        }
        win.print_fixed(
            5,
            h - 30,
            "^G Help  ^O WriteOut ^W WhereIs ^K Cut    ^J Justify ^C CurPos",
            0xFFFFFFFF,
        );
        win.print_fixed(
            5,
            h - 15,
            "^X Exit  ^R ReadFile ^\u{005C} Replace ^U Uncut  ^T ToSpell ^_ GoToLine",
            0xFFFFFFFF,
        );
    }
}

/// A window being dragged: whether one is, and where in the window the
/// mouse took hold.
#[derive(Debug, Clone, Copy, PartialEq, Eq, Structural)]
pub struct Drag {
    pub active: bool,
    pub offset_x: usize,
    pub offset_y: usize,
}

/// What the mouse did to the windows.
pub struct Pointed {
    pub shell: ShellView,
    pub drag: Drag,
    /// A window was closed by its close button.
    pub closed: bool,
}

/// Index of the topmost among the first `upto` windows that covers the
/// point.
pub open spec fn topmost_at(windows: Seq<WindowView>, mx: int, my: int, upto: int) -> Option<int>
    decreases upto,
{
    if upto <= 0 || upto > windows.len() {
        None
    } else if windows[upto - 1].covers(mx, my) {
        Some(upto - 1)
    } else {
        topmost_at(windows, mx, my, upto - 1)
    }
}

impl ShellView {
    /// The shell with window `idx` on top of the stack and active.
    pub open spec fn raised(self, idx: int) -> ShellView {
        ShellView {
            windows: self.windows.remove(idx).push(self.windows[idx]),
            active_idx: (self.windows.len() - 1) as usize,
            ..self
        }
    }

    /// The mouse can work on the windows of a screen `width` by
    /// `height`: every window's text can be searched, and every window
    /// can be maximized.
    pub open spec fn pointable(self, width: usize, height: usize) -> bool {
        &&& height >= 30
        &&& forall|i: int|
            0 <= i < self.windows.len() ==> (#[trigger] self.windows[i]).selectable()
                && self.windows[i].can_take(width, (height - 30) as usize)
    }

    /// What a click on the topmost window under the mouse does, once the
    /// window is on top: the close button closes it unless it is the
    /// only window, the maximize button toggles its size, the rest of the
    /// title bar starts a drag, and the content starts or extends a
    /// selection.
    pub open spec fn clicked(self, drag: Drag, mx: int, my: int, width: usize, height: usize) -> Pointed
        recommends
            self.active() is Some,
    {
        let win = self.windows[self.active_idx as int];
        let hit = win.title_bar_hit(mx, my);
        if hit == 1 {
            if self.windows.len() > 1 {
                Pointed { shell: self.without_active(), drag, closed: true }
            } else {
                Pointed { shell: self, drag, closed: false }
            }
        } else if hit == 2 {
            Pointed { shell: self.with_active(win.toggled(width, height)), drag, closed: false }
        } else if win.covers_title_bar(mx, my) {
            Pointed {
                shell: self,
                drag: Drag {
                    active: true,
                    offset_x: (mx - win.x) as usize,
                    offset_y: (my - win.y) as usize,
                },
                closed: false,
            }
        } else {
            Pointed { shell: self.with_active(win.with_mouse(mx, my, true)), drag, closed: false }
        }
    }

    /// What the mouse at `(mx, my)` does on a screen `width` by
    /// `height`. A press outside a drag raises the topmost window under
    /// the mouse and clicks on it. With the button up, a drag ends and
    /// the active window's selection is no longer extended. A press
    /// during a drag moves the active window with the mouse.
    pub open spec fn pointed(self, drag: Drag, mx: int, my: int, btn: bool, width: usize, height: usize) -> Pointed {
        if btn && !drag.active {
            match topmost_at(self.windows, mx, my, self.windows.len() as int) {
                Some(idx) => self.raised(idx).clicked(drag, mx, my, width, height),
                None => Pointed { shell: self, drag, closed: false },
            }
        } else if !btn {
            Pointed {
                shell: match self.active() {
                    Some(win) => self.with_active(win.with_mouse(mx, my, false)),
                    None => self,
                },
                drag: Drag { active: false, ..drag },
                closed: false,
            }
        } else {
            Pointed {
                shell: match self.active() {
                    Some(win) => self.with_active(
                        WindowView {
                            x: if mx > drag.offset_x {
                                (mx - drag.offset_x) as usize
                            } else {
                                win.x
                            },
                            y: if my > drag.offset_y {
                                (my - drag.offset_y) as usize
                            } else {
                                win.y
                            },
                            ..win
                        },
                    ),
                    None => self,
                },
                drag,
                closed: false,
            }
        }
    }

    /// The windows after each was brought up to date: the monitor shows
    /// heap and tasks, the explorer the current directory, and every
    /// editor its bars.
    pub open spec fn refreshed(self, root: NodeView, heap: (usize, usize), tasks: Seq<TaskInfo>) -> Seq<
        WindowView,
    > {
        Seq::new(
            self.windows.len(),
            |i: int|
                if self.windows[i].title == "System Monitor"@ {
                    self.windows[i].cleared().with_text(monitor_text(heap.0, heap.1, tasks))
                } else if self.windows[i].title == "File Explorer"@ {
                    self.windows[i].cleared().with_text(explorer_text(root, self.current_dir))
                } else if crate::compositor::is_editor_title(self.windows[i].title) {
                    self.windows[i].with_editor_bars(self.nano_status)
                } else {
                    self.windows[i]
                },
        )
    }
}

/// The time as the task bar shows it: hours, minutes and seconds with
/// two digits each.
pub open spec fn clock_text(time: Time) -> Seq<char> {
    crate::text::zero_padded(decimal(time.hours as nat), 2) + ":"@ + crate::text::zero_padded(
        decimal(time.minutes as nat),
        2,
    ) + ":"@ + crate::text::zero_padded(decimal(time.seconds as nat), 2)
}

/// The task bar of a screen `width` by `height`: a window over the whole
/// width along the bottom that shows the time at its right end.
pub fn taskbar(width: usize, height: usize, time: Time) -> (bar: Window)
    requires
        width >= 100,
        height >= 30,
        width * 30 <= usize::MAX,
    ensures
        bar@ == (WindowView {
            cursor_x: (width - 100) as usize,
            cursor_y: 5,
            ..WindowView::fresh(0, (height - 30) as usize, width, 30, "Taskbar"@)
        }).with_text(clock_text(time)),
{
    let mut bar = Window::new(0, height - 30, width, 30, "Taskbar");
    let mut text = String::new();
    crate::text::push_decimal_zeros(&mut text, time.hours as u64, 2);
    text.append(":");
    crate::text::push_decimal_zeros(&mut text, time.minutes as u64, 2);
    text.append(":");
    crate::text::push_decimal_zeros(&mut text, time.seconds as u64, 2);
    proof {
        assert(text@ =~= clock_text(time));
        reveal_strlit("Taskbar");
        lemma_clock_is_short(time);
        crate::compositor::lemma_width_bound(bar@);
    }
    bar.cursor_x = width - 100;
    bar.cursor_y = 5;
    bar.print(text.as_str());
    bar
}

/// A number below a thousand has at most three digits.
proof fn lemma_short_number(n: nat)
    requires
        n < 1000,
    ensures
        1 <= decimal(n).len() <= 3,
{
    reveal_with_fuel(decimal, 4);
}

/// The clock's text has at most eleven characters.
proof fn lemma_clock_is_short(time: Time)
    ensures
        clock_text(time).len() <= 11,
{
    lemma_short_number(time.hours as nat);
    lemma_short_number(time.minutes as nat);
    lemma_short_number(time.seconds as nat);
    reveal_strlit(":");
}

impl Shell {
    /// Index of the topmost window that covers the point.
    fn window_at(&self, mx: usize, my: usize) -> (r: Option<usize>)
        ensures
            match r {
                Some(i) => topmost_at(self@.windows, mx as int, my as int, self@.windows.len() as int)
                    == Some(i as int) && i < self.windows.len(),
                None => topmost_at(self@.windows, mx as int, my as int, self@.windows.len() as int)
                    is None,
            },
    {
        let mut i = self.windows.len();
        while i > 0
            invariant
                i <= self.windows.len(),
                topmost_at(self@.windows, mx as int, my as int, self@.windows.len() as int)
                    == topmost_at(self@.windows, mx as int, my as int, i as int),
            decreases i,
        {
            if self.windows[i - 1].contains(mx, my) {
                return Some(i - 1);
            }
            i = i - 1;
        }
        None
    }

    /// Puts window `idx` on top of the stack and makes it the active one.
    fn raise(&mut self, idx: usize)
        requires
            old(self).wf(),
            idx < old(self).windows.len(),
        ensures
            final(self)@ == old(self)@.raised(idx as int),
            final(self).wf(),
            final(self).windows.len() == old(self).windows.len(),
            final(self).active_idx == old(self).windows.len() - 1,
    {
        proof {
            lemma_window_views();
        }
        let win = self.windows.remove(idx);
        self.windows.push(win);
        self.active_idx = self.windows.len() - 1;
    }

    /// Clicks on the active window, which is on top of the stack.
    fn click(&mut self, drag: &mut Drag, mx: usize, my: usize, width: usize, height: usize) -> (closed:
        bool)
        requires
            old(self).wf(),
            old(self)@.pointable(width, height),
            old(self).active_idx < old(self).windows.len(),
        ensures
            (Pointed { shell: final(self)@, drag: *final(drag), closed }) == old(self)@.clicked(
                *old(drag),
                mx as int,
                my as int,
                width,
                height,
            ),
            final(self).wf(),
    {
        proof {
            lemma_window_views();
        }
        let active = self.active_idx;
        let ghost win = self@.windows[active as int];
        proof {
            assert(win.steady());
            assert(win.selectable());
        }
        let action = self.windows[active].handle_title_bar_click(mx, my);
        if action == 1 {
            if self.windows.len() > 1 {
                self.close_active();
                return true;
            }
        } else if action == 2 {
            self.windows[active].toggle_maximized(width, height);
            proof {
                assert(self@.windows =~= old(self)@.windows.update(
                    active as int,
                    win.toggled(width, height),
                ));
            }
        } else if self.windows[active].is_title_bar(mx, my) {
            drag.active = true;
            drag.offset_x = mx - self.windows[active].x;
            drag.offset_y = my - self.windows[active].y;
        } else {
            self.windows[active].handle_mouse(mx, my, true);
            proof {
                assert(self@.windows =~= old(self)@.windows.update(
                    active as int,
                    win.with_mouse(mx as int, my as int, true),
                ));
            }
        }
        false
    }

    /// Lets the mouse at `(mx, my)` work on the windows of a screen
    /// `width` by `height`. Tells whether a window was closed.
    pub fn handle_pointer(
        &mut self,
        drag: &mut Drag,
        mx: usize,
        my: usize,
        btn: bool,
        width: usize,
        height: usize,
    ) -> (closed: bool)
        requires
            old(self).wf(),
            old(self)@.pointable(width, height),
        ensures
            (Pointed { shell: final(self)@, drag: *final(drag), closed }) == old(self)@.pointed(
                *old(drag),
                mx as int,
                my as int,
                btn,
                width,
                height,
            ),
            final(self).wf(),
    {
        proof {
            lemma_window_views();
        }
        if btn && !drag.active {
            match self.window_at(mx, my) {
                Some(idx) => {
                    self.raise(idx);
                    proof {
                        assert(self@.pointable(width, height));
                    }
                    self.click(drag, mx, my, width, height)
                },
                None => false,
            }
        } else if !btn {
            drag.active = false;
            if self.active_idx < self.windows.len() {
                let ghost win = self@.windows[self.active_idx as int];
                self.windows[self.active_idx].handle_mouse(mx, my, btn);
                proof {
                    assert(self@.windows =~= old(self)@.windows.update(
                        self.active_idx as int,
                        win.with_mouse(mx as int, my as int, false),
                    ));
                }
            }
            false
        } else {
            if self.active_idx < self.windows.len() {
                let ghost win = self@.windows[self.active_idx as int];
                if mx > drag.offset_x {
                    self.windows[self.active_idx].x = mx - drag.offset_x;
                }
                if my > drag.offset_y {
                    self.windows[self.active_idx].y = my - drag.offset_y;
                }
                proof {
                    assert(self@.windows =~= old(self)@.pointed(
                        *old(drag),
                        mx as int,
                        my as int,
                        btn,
                        width,
                        height,
                    ).shell.windows);
                }
            }
            false
        }
    }

    /// Brings the windows up to date: the monitor shows heap and tasks,
    /// the explorer the current directory, and every editor its bars.
    pub fn update_windows(&mut self, root: &Node, heap: (usize, usize), tasks: &Vec<TaskInfo>)
        requires
            old(self).wf(),
            5 + GLYPH_WIDTH * old(self)@.nano_status.len() <= usize::MAX,
        ensures
            final(self)@ == (ShellView {
                windows: old(self)@.refreshed(root@, heap, tasks@),
                ..old(self)@
            }),
            final(self).wf(),
    {
        let mut i: usize = 0;
        let dir = self.current_dir.clone();
        let status = self.nano_status.clone();
        while i < self.windows.len()
            invariant
                i <= self.windows.len(),
                self.windows.len() == old(self).windows.len(),
                self.wf(),
                dir@ == old(self)@.current_dir,
                status@ == old(self)@.nano_status,
                5 + GLYPH_WIDTH * status@.len() <= usize::MAX,
                self@ == (ShellView { windows: self@.windows, ..old(self)@ }),
                forall|k: int|
                    0 <= k < self.windows.len() ==> #[trigger] self@.windows[k] == if k < i {
                        old(self)@.refreshed(root@, heap, tasks@)[k]
                    } else {
                        old(self)@.windows[k]
                    },
            decreases self.windows.len() - i,
        {
            proof {
                lemma_window_views();
                assert(self@.windows[i as int].steady());
            }
            let ghost win = self@.windows[i as int];
            if crate::strings::same_text(self.windows[i].title.as_str(), "System Monitor") {
                Shell::update_monitor(&mut self.windows[i], heap, tasks);
            } else if crate::strings::same_text(self.windows[i].title.as_str(), "File Explorer") {
                Shell::update_explorer(&mut self.windows[i], root, dir.as_str());
            } else if crate::compositor::has_editor_title(self.windows[i].title.as_str()) {
                Shell::update_nano(&mut self.windows[i], status.as_str());
                proof {
                    lemma_bars_keep_steady(win, status@);
                }
            }
            i = i + 1;
        }
        proof {
            assert(self@.windows =~= old(self)@.refreshed(root@, heap, tasks@));
        }
    }
}

/// An editor window is steady with its bars drawn.
pub proof fn lemma_bars_keep_steady(v: WindowView, status: Seq<char>)
    requires
        v.steady(),
    ensures
        v.with_editor_bars(status).steady(),
{
    crate::compositor::lemma_lettered_len(
        v.with_rect(2, v.height - 50, v.width - 4, 18, TEXT_COLOR).data,
        v.width as int,
        status,
        5,
        v.height - 48,
        CONTENT_COLOR,
    );
    let first = v.with_rect(2, v.height - 50, v.width - 4, 18, TEXT_COLOR).with_lettering(
        5,
        v.height - 48,
        status,
        CONTENT_COLOR,
    ).with_rect(2, v.height - 32, v.width - 4, 30, CONTENT_COLOR);
    crate::compositor::lemma_lettered_len(
        first.data,
        v.width as int,
        editor_keys_upper(),
        5,
        v.height - 30,
        TEXT_COLOR,
    );
    crate::compositor::lemma_lettered_len(
        first.with_lettering(5, v.height - 30, editor_keys_upper(), TEXT_COLOR).data,
        v.width as int,
        editor_keys_lower(),
        5,
        v.height - 15,
        TEXT_COLOR,
    );
}

/// How `disk read` shows a byte: printable ASCII as it is, anything else
/// as a dot.
pub open spec fn shown_byte(b: u8) -> char {
    if 32 <= b <= 126 {
        b as char
    } else {
        '.'
    }
}

/// Where the text of a sector ends, looking from `from` on: at the first
/// zero byte, and at the end of the sector at the latest.
pub open spec fn sector_text_end(data: Seq<u8>, from: int) -> int
    decreases data.len() - from,
{
    if from < 0 || from >= data.len() || from >= 512 || data[from] == 0 {
        from
    } else {
        sector_text_end(data, from + 1)
    }
}

/// What `disk read` shows of a sector: its bytes up to the first zero,
/// each as [`shown_byte`] shows it.
pub open spec fn sector_shown(data: Seq<u8>) -> Seq<char> {
    Seq::new(sector_text_end(data, 0) as nat, |i: int| shown_byte(data[i]))
}

/// The text that `disk read` shows for the sector `data`.
pub fn sector_text(data: &[u8]) -> (s: String)
    ensures
        s@ == sector_shown(data@),
{
    let mut s = String::new();
    let mut i: usize = 0;
    while i < data.len() && i < 512 && data[i] != 0
        invariant
            i <= data.len(),
            i <= 512,
            sector_text_end(data@, 0) == sector_text_end(data@, i as int),
            s@ == Seq::new(i as nat, |k: int| shown_byte(data@[k])),
        decreases data.len() - i,
    {
        let c = data[i];
        let ghost before = s@;
        if c >= 32 && c <= 126 {
            push_char(&mut s, c as char);
        } else {
            push_char(&mut s, '.');
        }
        proof {
            assert(s@ =~= Seq::new((i + 1) as nat, |k: int| shown_byte(data@[k])));
        }
        i = i + 1;
    }
    s
}

/// The sector that `disk write` writes for a text: the first 512 bytes
/// of the text, then zeros.
pub open spec fn sector_written(bytes: Seq<u8>) -> Seq<u8> {
    Seq::new(
        512,
        |i: int|
            if i < bytes.len() {
                bytes[i]
            } else {
                0u8
            },
    )
}

/// The sector that `disk write` writes for `text`.
pub fn text_sector(text: &str) -> (sector: Vec<u8>)
    ensures
        sector@ == sector_written(vstd::utf8::encode_utf8(text@)),
{
    let bytes = text.as_bytes_vec();
    let mut sector: Vec<u8> = Vec::new();
    let mut i: usize = 0;
    while i < 512
        invariant
            i <= 512,
            bytes@ == vstd::utf8::encode_utf8(text@),
            sector@ == Seq::new(
                i as nat,
                |k: int|
                    if k < bytes@.len() {
                        bytes@[k]
                    } else {
                        0u8
                    },
            ),
        decreases 512 - i,
    {
        let b: u8 = if i < bytes.len() {
            bytes[i]
        } else {
            0
        };
        sector.push(b);
        proof {
            assert(sector@ =~= Seq::new(
                (i + 1) as nat,
                |k: int|
                    if k < bytes@.len() {
                        bytes@[k]
                    } else {
                        0u8
                    },
            ));
        }
        i = i + 1;
    }
    proof {
        assert(sector@ =~= sector_written(vstd::utf8::encode_utf8(text@)));
    }
    sector
}

/// Tells whether the mouse can work on the window on a screen `width` by
/// `height`: whether the window can tell where in its text a point
/// lies, and can take the screen above the task bar when maximized.
pub fn window_pointable(win: &Window, width: usize, height: usize) -> (r: bool)
    requires
        height >= 30,
    ensures
        r == (win@.selectable() && win@.can_take(width, (height - 30) as usize)),
{
    let n = win.text_buffer.as_str().unicode_len();
    let h = height - 30;
    let margin = if has_editor_title(win.title.as_str()) {
        EDITOR_MARGIN
    } else {
        BORDER_WIDTH
    };
    win.width >= BORDER_WIDTH && win.height >= BORDER_WIDTH && win.width <= 0x7fff_ffff && win.height
        <= 0x7fff_ffff && n <= (0x7fff_ffff - TEXT_TOP) / LINE_HEIGHT && MIN_WIDTH <= width && width
        <= STEADY_LIMIT && MIN_HEIGHT <= h && h <= STEADY_LIMIT && h > margin + TEXT_TOP
        + LINE_HEIGHT && width.checked_mul(h).is_some()
}

impl Shell {
    /// Tells whether the mouse can work on the windows of a screen
    /// `width` by `height`.
    pub fn can_point(&self, width: usize, height: usize) -> (r: bool)
        ensures
            r == self@.pointable(width, height),
    {
        if height < 30 {
            return false;
        }
        let mut i: usize = 0;
        while i < self.windows.len()
            invariant
                i <= self.windows.len(),
                height >= 30,
                forall|j: int|
                    0 <= j < i ==> (#[trigger] self@.windows[j]).selectable()
                        && self@.windows[j].can_take(width, (height - 30) as usize),
            decreases self.windows.len() - i,
        {
            if !window_pointable(&self.windows[i], width, height) {
                assert(self@.windows[i as int] == self.windows[i as int]@);
                return false;
            }
            assert(self@.windows[i as int] == self.windows[i as int]@);
            i = i + 1;
        }
        true
    }
}

} // verus!
