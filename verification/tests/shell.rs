use chronos::commands::{change_dir, parent};
use chronos::compositor::Window;
use chronos::fs::{ls, mkdir, read, save_to_disk, touch, Node};
use chronos::input::{push_key, KeyboardBuffer};
use chronos::logger::{log, Logger};
use chronos::scheduler::{Scheduler, TaskStatus};
use chronos::shell::{
    sector_text, taskbar, text_sector, window_pointable, Drag, Hardware, KeyOutcome, Shell,
};
use chronos::time::Time;

const IP: [u8; 4] = [10, 0, 2, 15];

fn tree() -> Node {
    let mut r = Node::Directory { name: "/".to_string(), children: Vec::new() };
    assert!(mkdir(&mut r, "/", "docs"));
    assert!(touch(&mut r, "/", "hello.txt", b"hello world\nsecond line\nthird\n".to_vec()));
    assert!(touch(&mut r, "/", "blob", vec![0xff, 0x00]));
    assert!(touch(&mut r, "/docs", "a.txt", b"alpha".to_vec()));
    r
}

fn type_text(shell: &mut Shell, root: &mut Node, text: &str) -> Vec<KeyOutcome> {
    text.chars().map(|c| shell.handle_key(root, IP, 0, c)).collect()
}

/// Types a command, enters it, and gives what it printed and left to do.
fn enter(shell: &mut Shell, root: &mut Node, command: &str) -> (String, KeyOutcome) {
    type_text(shell, root, command);
    let before = shell.windows.get(shell.active_idx).map(|w| w.text_buffer.clone()).unwrap_or_default();
    let outcome = shell.handle_key(root, IP, 0, '\n');
    let after = shell.windows.get(shell.active_idx).map(|w| w.text_buffer.clone()).unwrap_or_default();
    let printed = after.strip_prefix(&before).unwrap_or(&after).to_string();
    (printed, outcome)
}

fn says(shell: &mut Shell, root: &mut Node, command: &str) -> String {
    let (printed, outcome) = enter(shell, root, command);
    assert!(outcome.hardware.is_none());
    let body = printed.strip_prefix('\n').unwrap();
    body.strip_suffix("> ").unwrap().to_string()
}

#[test]
fn shell_starts_with_a_terminal() {
    let root = tree();
    let shell = Shell::new(&root);
    assert_eq!(shell.windows.len(), 1);
    assert_eq!(shell.active_idx, 0);
    let win = &shell.windows[0];
    assert_eq!(win.title, "Terminal 1");
    assert_eq!((win.x, win.y, win.width, win.height), (50, 50, 700, 400));
    assert_eq!(win.text_buffer, "Chronos Terminal v1.0\n> ");
    assert_eq!(shell.prompt_start_idx, 22);
    assert_eq!(shell.prompt_start_y, 42);
    assert_eq!((win.cursor_x, win.cursor_y), (20, 42));
    assert_eq!(shell.current_dir, "/");
    assert!(shell.history.is_empty());
    assert_eq!(shell.insertion_point, 0);
    assert!(shell.command_buffer().is_empty());
    let mut same = Window::new(50, 50, 700, 400, "Terminal 1");
    same.print("Chronos Terminal v1.0\n> ");
    assert_eq!(win.data, same.data);
}

#[test]
fn history_is_loaded_and_saved() {
    let mut root = tree();
    assert!(touch(&mut root, "/", ".bash_history", b"ls\ncd docs\r\npwd".to_vec()));
    let mut shell = Shell::new(&root);
    assert_eq!(shell.history, vec!["ls", "cd docs", "pwd"]);
    assert_eq!(shell.history_idx, 3);
    shell.history.push("new".to_string());
    let image = shell.save_history(&mut root);
    assert_eq!(read(&root, "/", ".bash_history"), Some(b"ls\ncd docs\npwd\nnew\n".to_vec()));
    assert_eq!(image, save_to_disk(&root));
    let mut binary = tree();
    assert!(touch(&mut binary, "/", ".bash_history", vec![0xff]));
    assert!(Shell::new(&binary).history.is_empty());
}

#[test]
fn typing_edits_the_command_line() {
    let mut root = tree();
    let mut shell = Shell::new(&root);
    type_text(&mut shell, &mut root, "hxlp");
    assert_eq!(shell.command_buffer(), &vec!['h', 'x', 'l', 'p']);
    assert_eq!(shell.insertion_point, 4);
    assert_eq!(shell.windows[0].text_buffer, "Chronos Terminal v1.0\n> hxlp");
    type_text(&mut shell, &mut root, "\u{E002}\u{E002}\x08e");
    assert_eq!(shell.command_buffer().iter().collect::<String>(), "help");
    assert_eq!(shell.insertion_point, 2);
    assert_eq!(shell.windows[0].text_buffer, "Chronos Terminal v1.0\n> help");
    // the cursor stands behind "> he"
    assert_eq!((shell.windows[0].cursor_x, shell.windows[0].cursor_y), (6 + 4 * 9, 42));
    type_text(&mut shell, &mut root, "\u{E003}\u{E003}\u{E003}\u{E003}");
    assert_eq!(shell.insertion_point, 4);
    type_text(&mut shell, &mut root, "\u{E002}\u{E006}\u{E006}");
    assert_eq!(shell.command_buffer().iter().collect::<String>(), "hel");
    type_text(&mut shell, &mut root, "\u{E002}\u{E002}\u{E002}\u{E002}\x08");
    assert_eq!(shell.insertion_point, 0);
    assert_eq!(shell.command_buffer().iter().collect::<String>(), "hel");
}

#[test]
fn commands_answer() {
    let mut root = tree();
    let mut shell = Shell::new(&root);
    assert_eq!(says(&mut shell, &mut root, "help"), "Commands: ls, net, ping, run, term, top, wifi\n");
    assert_eq!(says(&mut shell, &mut root, "  pwd  "), "/\n");
    assert_eq!(says(&mut shell, &mut root, "ls"), "[DIR]  docs\n[FILE] hello.txt\n[FILE] blob\n[FILE] .bash_history\n");
    assert_eq!(says(&mut shell, &mut root, "cat hello.txt"), "hello world\nsecond line\nthird\n\n");
    assert_eq!(says(&mut shell, &mut root, "cat blob"), "[Binary Data]\n");
    assert_eq!(says(&mut shell, &mut root, "cat nope"), "Error: File not found.\n");
    assert_eq!(says(&mut shell, &mut root, "cat"), "Usage: cat <file>\n");
    assert_eq!(says(&mut shell, &mut root, "grep line hello.txt"), "second line\n");
    assert_eq!(says(&mut shell, &mut root, "grep o hello.txt"), "hello world\nsecond line\n");
    assert_eq!(says(&mut shell, &mut root, "grep x blob"), "Error: Cannot grep binary file.\n");
    assert_eq!(says(&mut shell, &mut root, "grep x"), "Usage: grep <pattern> <file>\n");
    assert_eq!(says(&mut shell, &mut root, "head hello.txt -n 2"), "hello world\nsecond line\n");
    assert_eq!(says(&mut shell, &mut root, "head hello.txt -n x"), "hello world\nsecond line\nthird\n");
    assert_eq!(says(&mut shell, &mut root, "head hello.txt -n 0"), "");
    assert_eq!(says(&mut shell, &mut root, "head blob"), "");
    assert_eq!(says(&mut shell, &mut root, "tail hello.txt -n 1"), "third\n");
    assert_eq!(says(&mut shell, &mut root, "tail hello.txt"), "hello world\nsecond line\nthird\n");
    assert_eq!(says(&mut shell, &mut root, "tail"), "Usage: tail <file> [-n lines]\n");
    assert_eq!(says(&mut shell, &mut root, "wc hello.txt"), "3 5 30 hello.txt\n");
    assert_eq!(says(&mut shell, &mut root, "wc blob"), "- - 2 blob\n");
    assert_eq!(says(&mut shell, &mut root, "stat hello.txt"), "Name: hello.txt\nType: File\nSize: 30 bytes\n");
    assert_eq!(says(&mut shell, &mut root, "stat docs"), "Name: docs\nType: Directory\nChildren: 1\n");
    assert_eq!(says(&mut shell, &mut root, "stat nope"), "Error: Not found.\n");
    assert_eq!(says(&mut shell, &mut root, "find txt"), "/docs/a.txt\n/hello.txt\n");
    assert_eq!(says(&mut shell, &mut root, "find"), "Usage: find <pattern>\n");
    assert_eq!(says(&mut shell, &mut root, "echo a   b c"), "a b c\n");
    assert_eq!(says(&mut shell, &mut root, "echo"), "\n");
    assert_eq!(says(&mut shell, &mut root, "ip"), "IP: 10.0.2.15\n");
    assert_eq!(says(&mut shell, &mut root, "frobnicate"), "Unknown command.\n");
    assert_eq!(says(&mut shell, &mut root, "wifi"), "Usage: wifi list | wifi connect <ssid>\n");
    assert!(says(&mut shell, &mut root, "wifi list").ends_with("Neighbour_4       22%     WPA2  11\n"));
    assert!(says(&mut shell, &mut root, "wifi connect Home_5G").starts_with("Connecting to 'Home_5G'...\n  [.] Handshake\n"));
    assert!(says(&mut shell, &mut root, "install").ends_with("System installed successfully. Please reboot.\n"));
    assert_eq!(says(&mut shell, &mut root, ""), "");
    assert_eq!(says(&mut shell, &mut root, "   "), "");
}

#[test]
fn du_adds_up_files() {
    let mut root = tree();
    let mut shell = Shell::new(&root);
    // no history file yet: the command itself creates one of 3 bytes first
    assert_eq!(says(&mut shell, &mut root, "du"), "Total size: 40 bytes\n");
    shell.current_dir = "/docs".to_string();
    assert_eq!(says(&mut shell, &mut root, "du"), "Total size: 5 bytes\n");
}

#[test]
fn commands_change_the_tree_and_ask_for_a_save() {
    let mut root = tree();
    let mut shell = Shell::new(&root);
    let (printed, outcome) = enter(&mut shell, &mut root, "mkdir new");
    assert_eq!(printed, "\nDirectory 'new' created.\n> ");
    // one image for the history, one for the command
    assert_eq!(outcome.images.len(), 2);
    assert_eq!(outcome.images[1], save_to_disk(&root));
    assert!(ls(&root, "/new").is_some());
    let (again, second) = enter(&mut shell, &mut root, "mkdir new");
    assert_eq!(again, "\nError: Could not create directory.\n> ");
    assert!(second.images.is_empty());
    assert_eq!(says(&mut shell, &mut root, "touch t"), "File 't' created.\n");
    assert_eq!(read(&root, "/", "t"), Some(vec![]));
    assert_eq!(says(&mut shell, &mut root, "write t some  words here"), "File 't' written.\n");
    assert_eq!(read(&root, "/", "t"), Some(b"some words here".to_vec()));
    assert_eq!(says(&mut shell, &mut root, "write t"), "Usage: write <file> <text>\n");
    assert_eq!(says(&mut shell, &mut root, "cp t u"), "Copied 't' to 'u'.\n");
    assert_eq!(read(&root, "/", "u"), Some(b"some words here".to_vec()));
    assert_eq!(says(&mut shell, &mut root, "cp ghost u"), "Error: Could not copy.\n");
    assert_eq!(says(&mut shell, &mut root, "mv u v"), "Moved 'u' to 'v'.\n");
    assert_eq!(read(&root, "/", "u"), None);
    assert_eq!(read(&root, "/", "v"), Some(b"some words here".to_vec()));
    assert_eq!(says(&mut shell, &mut root, "mv u v"), "Error: Could not move.\n");
    assert_eq!(says(&mut shell, &mut root, "rm v"), "Removed 'v'.\n");
    assert_eq!(says(&mut shell, &mut root, "rm v"), "Error: Could not remove item.\n");
    assert_eq!(says(&mut shell, &mut root, "rm"), "Usage: rm <name>\n");
    assert_eq!(says(&mut shell, &mut root, "echo one two > out"), "");
    assert_eq!(read(&root, "/", "out"), Some(b"one two\n".to_vec()));
    assert_eq!(says(&mut shell, &mut root, "echo three >> out"), "");
    assert_eq!(read(&root, "/", "out"), Some(b"one two\nthree\n".to_vec()));
    assert_eq!(says(&mut shell, &mut root, "echo four >> fresh"), "");
    assert_eq!(read(&root, "/", "fresh"), Some(b"four\n".to_vec()));
    assert_eq!(says(&mut shell, &mut root, "echo five > out"), "");
    assert_eq!(read(&root, "/", "out"), Some(b"five\n".to_vec()));
    assert_eq!(says(&mut shell, &mut root, "echo x >"), "Usage: echo <text> [>|>> file]\n");
    shell.current_dir = "/gone".to_string();
    assert_eq!(says(&mut shell, &mut root, "echo x > y"), "Error: Could not write to file.\n");
    assert_eq!(says(&mut shell, &mut root, "touch y"), "Error: Could not create file.\n");
}

#[test]
fn history_is_kept_and_browsed() {
    let mut root = tree();
    let mut shell = Shell::new(&root);
    says(&mut shell, &mut root, "pwd");
    says(&mut shell, &mut root, "pwd");
    says(&mut shell, &mut root, "help");
    says(&mut shell, &mut root, "");
    assert_eq!(shell.history, vec!["pwd", "help"]);
    assert_eq!(shell.history_idx, 2);
    assert_eq!(read(&root, "/", ".bash_history"), Some(b"pwd\nhelp\n".to_vec()));
    type_text(&mut shell, &mut root, "\u{E000}");
    assert_eq!(shell.command_buffer().iter().collect::<String>(), "help");
    assert_eq!(shell.insertion_point, 4);
    type_text(&mut shell, &mut root, "\u{E000}\u{E000}\u{E000}");
    assert_eq!(shell.command_buffer().iter().collect::<String>(), "pwd");
    assert_eq!(shell.history_idx, 0);
    assert!(shell.windows[0].text_buffer.ends_with("> pwd"));
    type_text(&mut shell, &mut root, "\u{E001}\u{E001}");
    assert!(shell.command_buffer().is_empty());
    assert_eq!(shell.history_idx, 2);
    type_text(&mut shell, &mut root, "\u{E001}");
    assert_eq!(shell.history_idx, 2);
}

#[test]
fn cd_walks_the_tree() {
    let mut root = tree();
    assert!(mkdir(&mut root, "/docs", "deep"));
    let mut shell = Shell::new(&root);
    assert_eq!(says(&mut shell, &mut root, "cd docs"), "");
    assert_eq!(shell.current_dir, "/docs");
    assert_eq!(says(&mut shell, &mut root, "ls"), "[FILE] a.txt\n[DIR]  deep\n");
    assert_eq!(says(&mut shell, &mut root, "cd deep"), "");
    assert_eq!(shell.current_dir, "/docs/deep");
    assert_eq!(says(&mut shell, &mut root, "cd nope"), "Error: Directory not found.\n");
    assert_eq!(says(&mut shell, &mut root, "cd .."), "");
    assert_eq!(shell.current_dir, "/docs");
    assert_eq!(says(&mut shell, &mut root, "cd .."), "");
    assert_eq!(shell.current_dir, "/");
    assert_eq!(says(&mut shell, &mut root, "cd .."), "");
    assert_eq!(shell.current_dir, "/");
    assert_eq!(says(&mut shell, &mut root, "cd docs"), "");
    assert_eq!(says(&mut shell, &mut root, "cd /"), "");
    assert_eq!(shell.current_dir, "/");
    assert_eq!(says(&mut shell, &mut root, "cd"), "Usage: cd <path>\n");
    assert_eq!(says(&mut shell, &mut root, "cd hello.txt"), "Error: Directory not found.\n");
    let up = |s: &str| parent(&s.chars().collect()).iter().collect::<String>();
    assert_eq!(up("/a/b"), "/a");
    assert_eq!(up("/a/b///"), "/a");
    assert_eq!(up("/a"), "/");
    assert_eq!(up("/"), "/");
    assert_eq!(up("a"), "a");
    assert_eq!(up("a/b"), "a");
    assert_eq!(up("//"), "//");
    let (dir, message) = change_dir(&root, "/docs", &vec!["cd".chars().collect(), "deep".chars().collect()]);
    assert_eq!((dir.as_str(), message.as_str()), ("/docs/deep", ""));
}

#[test]
fn windows_are_opened_and_limited() {
    let mut root = tree();
    let mut shell = Shell::new(&root);
    enter(&mut shell, &mut root, "term");
    assert_eq!(shell.windows.len(), 2);
    assert_eq!(shell.active_idx, 1);
    assert_eq!(shell.windows[1].title, "Terminal 2");
    assert_eq!((shell.windows[1].x, shell.windows[1].y), (110, 110));
    assert_eq!(shell.windows[1].text_buffer, "Chronos Terminal\n> > ");
    enter(&mut shell, &mut root, "top");
    assert_eq!(shell.windows[2].title, "System Monitor");
    assert_eq!((shell.windows[2].x, shell.windows[2].y, shell.windows[2].width, shell.windows[2].height), (300, 100, 400, 500));
    enter(&mut shell, &mut root, "fm");
    assert_eq!(shell.windows[3].title, "File Explorer");
    enter(&mut shell, &mut root, "explorer");
    assert_eq!(shell.windows.len(), 5);
    enter(&mut shell, &mut root, "browser");
    assert_eq!(shell.windows[5].title, "Web Browser - Google");
    assert_eq!(
        shell.windows[5].text_buffer,
        "Welcome to Chronos Browser\n--------------------------\nType 'goto <url>' to browse.\nLaunched Web Browser.\n> "
    );
    enter(&mut shell, &mut root, "goto example.org");
    assert!(shell.windows[5].text_buffer.starts_with("ADDRESS: example.org\n"));
    assert!(shell.windows[5].text_buffer.ends_with("\nNavigation complete.\n> "));
    for _ in 0..4 {
        shell.spawn_terminal();
    }
    assert_eq!(shell.windows.len(), 10);
    shell.open_browser();
    assert_eq!(shell.windows.len(), 10);
    assert!(shell.windows[9].text_buffer.ends_with("Error: Maximum window limit reached.\n"));
    for _ in 0..5 {
        shell.spawn_terminal();
    }
    assert_eq!(shell.windows.len(), 15);
    assert_eq!(shell.windows[14].title, "Terminal 15");
    shell.spawn_terminal();
    shell.open_tool(1, 1, 100, 100, "x");
    assert_eq!(shell.windows.len(), 15);
    assert!(shell.windows[14]
        .text_buffer
        .ends_with("\nError: Maximum window limit reached (Resource Protection).\nError: Maximum window limit reached.\n"));
    enter(&mut shell, &mut root, "clear");
    assert!(shell.windows.is_empty());
    let (printed, _) = enter(&mut shell, &mut root, "pwd");
    assert_eq!(printed, "");
}

#[test]
fn hardware_commands_are_handed_over() {
    let mut root = tree();
    let mut shell = Shell::new(&root);
    let (printed, outcome) = enter(&mut shell, &mut root, "net");
    assert_eq!(printed, "\nInitializing Network...\n");
    assert!(matches!(outcome.hardware, Some(Hardware::Net)));
    assert!(outcome.stop);
    assert_eq!(outcome.images.len(), 1);
    // the command is finished once the work is done
    assert_eq!(shell.command_buffer().iter().collect::<String>(), "net");
    shell.finish_command();
    assert!(shell.command_buffer().is_empty());
    assert!(shell.windows[0].text_buffer.ends_with("Initializing Network...\n> "));
    let work = |shell: &mut Shell, root: &mut Node, command: &str| {
        let (_, outcome) = enter(shell, root, command);
        shell.finish_command();
        outcome.hardware
    };
    assert!(matches!(work(&mut shell, &mut root, "ping"), Some(Hardware::Ping)));
    assert!(matches!(work(&mut shell, &mut root, "lsdisk"), Some(Hardware::LsDisk)));
    assert!(matches!(work(&mut shell, &mut root, "disk read"), Some(Hardware::DiskRead)));
    assert!(matches!(work(&mut shell, &mut root, "disk"), Some(Hardware::DiskUsage)));
    assert!(matches!(work(&mut shell, &mut root, "disk write"), Some(Hardware::DiskUsage)));
    match work(&mut shell, &mut root, "disk write hello   disk") {
        Some(Hardware::DiskWrite(text)) => assert_eq!(text, "hello disk"),
        _ => panic!("no write"),
    }
    match work(&mut shell, &mut root, "catdisk KERNEL.BIN") {
        Some(Hardware::CatDisk(Some(name))) => assert_eq!(name, "KERNEL.BIN"),
        _ => panic!("no file"),
    }
    assert!(matches!(work(&mut shell, &mut root, "catdisk"), Some(Hardware::CatDisk(None))));
    match work(&mut shell, &mut root, "rundisk app") {
        Some(Hardware::RunDisk(name)) => assert_eq!(name, "app"),
        _ => panic!("no file"),
    }
    match work(&mut shell, &mut root, "run ello") {
        Some(Hardware::Run(name)) => assert_eq!(name, "hello.txt"),
        _ => panic!("no file"),
    }
    assert_eq!(says(&mut shell, &mut root, "run docs"), "File not found.\n");
    assert_eq!(says(&mut shell, &mut root, "run"), "Usage: run <filename>\n");
    assert_eq!(says(&mut shell, &mut root, "rundisk"), "Usage: rundisk <file>\n");
}

#[test]
fn editor_edits_and_saves() {
    let mut root = tree();
    let mut shell = Shell::new(&root);
    enter(&mut shell, &mut root, "nano hello.txt");
    assert_eq!(shell.windows.len(), 2);
    assert_eq!(shell.windows[1].title, "Nano - hello.txt");
    assert_eq!(shell.windows[1].text_buffer, "hello world\nsecond line\nthird\n> ");
    type_text(&mut shell, &mut root, "\x08\x08");
    assert_eq!(shell.windows[1].text_buffer, "hello world\nsecond line\nthird\n");
    type_text(&mut shell, &mut root, "é!");
    assert_eq!(shell.windows[1].text_buffer, "hello world\nsecond line\nthird\né!");
    let saved = shell.handle_key(&mut root, IP, 0, '\x13');
    assert_eq!(saved.images.len(), 1);
    assert_eq!(read(&root, "/", "hello.txt"), Some("hello world\nsecond line\nthird\né!".as_bytes().to_vec()));
    assert_eq!(shell.nano_status, "[ Saved 33 bytes ]");
    shell.handle_key(&mut root, IP, 0, '\x03');
    assert_eq!(shell.nano_status, "[ Line 4, Col 2 ]");
    shell.handle_key(&mut root, IP, 0, '\x07');
    assert_eq!(shell.nano_status, "[ Shortcuts: ^O Save, ^X Exit, ^K Cut, ^U Paste, ^R Read ]");
    shell.handle_key(&mut root, IP, 0, '\x0B');
    assert_eq!(shell.clipboard, "hello world\nsecond line\nthird\né!");
    assert_eq!(shell.windows[1].text_buffer, "");
    assert_eq!(shell.nano_status, "[ Cut 33 characters ]");
    shell.handle_key(&mut root, IP, 0, '\x15');
    assert_eq!(shell.windows[1].text_buffer, "hello world\nsecond line\nthird\né!");
    assert_eq!(shell.nano_status, "[ Uncut 33 characters ]");
    shell.handle_key(&mut root, IP, 0, '\x12');
    assert_eq!(shell.nano_status, "[ Error: import.txt not found ]");
    assert!(touch(&mut root, "/", "import.txt", b"+in".to_vec()));
    shell.handle_key(&mut root, IP, 0, '\x12');
    assert_eq!(shell.nano_status, "[ Read import.txt ]");
    assert!(shell.windows[1].text_buffer.ends_with("é!+in"));
    shell.handle_key(&mut root, IP, 0, '\x0F');
    assert!(read(&root, "/", "hello.txt").unwrap().ends_with(b"+in"));
    let closed = shell.handle_key(&mut root, IP, 0, '\x18');
    assert!(closed.stop);
    assert_eq!(shell.windows.len(), 1);
    assert_eq!(shell.active_idx, 0);
    enter(&mut shell, &mut root, "nano missing");
    assert_eq!(shell.windows[1].text_buffer, "> ");
    enter(&mut shell, &mut root, "nano");
    assert_eq!(shell.windows.len(), 2);
}

#[test]
fn editor_file_name_drops_repeated_prefixes() {
    let mut root = tree();
    let mut shell = Shell::new(&root);
    enter(&mut shell, &mut root, "nano Nano");
    shell.windows[1].title = "Nano - Nano - x".to_string();
    type_text(&mut shell, &mut root, "\x08\x08z\x13");
    assert_eq!(read(&root, "/", "x"), Some(b"z".to_vec()));
}

#[test]
fn copy_and_paste() {
    let mut root = tree();
    let mut shell = Shell::new(&root);
    shell.windows[0].selection_start = Some(0);
    shell.windows[0].selection_end = Some(7);
    shell.handle_key(&mut root, IP, 0, '\u{E004}');
    assert_eq!(shell.clipboard, "Chronos");
    assert_eq!(shell.windows[0].selection_start, None);
    shell.clipboard = "ls\r\n -l".to_string();
    type_text(&mut shell, &mut root, "x\u{E002}\u{E005}");
    assert_eq!(shell.command_buffer().iter().collect::<String>(), "ls -lx");
    assert_eq!(shell.insertion_point, 5);
}

#[test]
fn tilde_opens_a_terminal_after_a_while() {
    let mut root = tree();
    let mut shell = Shell::new(&root);
    shell.handle_key(&mut root, IP, 1_000_000_000, '~');
    assert_eq!(shell.windows.len(), 1);
    assert!(shell.command_buffer().is_empty());
    shell.handle_key(&mut root, IP, 1_000_000_001, '~');
    assert_eq!(shell.windows.len(), 2);
}

#[test]
fn a_turn_takes_ten_keys_and_prints_the_log() {
    let mut root = tree();
    let mut shell = Shell::new(&root);
    let mut keys = KeyboardBuffer::new();
    let mut logger = Logger::new();
    for c in "abcdefghijklm".chars() {
        push_key(&mut keys, c);
    }
    log(&mut logger, "[log one]");
    log(&mut logger, "[log two]");
    let turn = shell.run(&mut keys, &mut logger, &mut root, IP, 0);
    assert_eq!(turn.processed, 10);
    assert!(turn.hardware.is_none());
    assert_eq!(shell.command_buffer().iter().collect::<String>(), "abcdefghij");
    // the eleventh key is lost
    assert_eq!(keys.queue.iter().collect::<String>(), "lm");
    assert!(shell.windows[0].text_buffer.ends_with("> abcdefghij[log one][log two]"));
    assert!(logger.queue.is_empty());
    let next = shell.run(&mut keys, &mut logger, &mut root, IP, 0);
    assert_eq!(next.processed, 2);
    assert_eq!(shell.command_buffer().iter().collect::<String>(), "abcdefghijlm");
}

#[test]
fn a_turn_stops_for_hardware_and_resumes() {
    let mut root = tree();
    let mut shell = Shell::new(&root);
    let mut keys = KeyboardBuffer::new();
    let mut logger = Logger::new();
    for c in "ping\npwd\n".chars() {
        push_key(&mut keys, c);
    }
    log(&mut logger, "[late]");
    let turn = shell.run(&mut keys, &mut logger, &mut root, IP, 0);
    assert!(matches!(turn.hardware, Some(Hardware::Ping)));
    assert_eq!(turn.processed, 5);
    assert_eq!(turn.images.len(), 1);
    assert_eq!(keys.queue.len(), 4);
    assert_eq!(logger.queue.len(), 1);
    shell.finish_command();
    let rest = shell.resume(turn.processed, &mut keys, &mut logger, &mut root, IP, 0);
    assert!(rest.hardware.is_none());
    assert_eq!(rest.processed, 9);
    assert!(shell.windows[0].text_buffer.ends_with("> pwd\n/\n> [late]"));
    assert_eq!(shell.history, vec!["ping", "pwd"]);
}

#[test]
fn closing_the_editor_ends_the_turn() {
    let mut root = tree();
    let mut shell = Shell::new(&root);
    enter(&mut shell, &mut root, "nano hello.txt");
    let mut keys = KeyboardBuffer::new();
    let mut logger = Logger::new();
    for c in "a\x18bc".chars() {
        push_key(&mut keys, c);
    }
    log(&mut logger, "[kept]");
    let turn = shell.run(&mut keys, &mut logger, &mut root, IP, 0);
    assert_eq!(turn.processed, 2);
    assert_eq!(shell.windows.len(), 1);
    assert_eq!(keys.queue.iter().collect::<String>(), "bc");
    assert_eq!(logger.queue.len(), 1);
}

#[test]
fn monitor_and_explorer_are_kept_up_to_date() {
    let mut root = tree();
    let mut shell = Shell::new(&root);
    enter(&mut shell, &mut root, "top");
    enter(&mut shell, &mut root, "fm");
    enter(&mut shell, &mut root, "nano a");
    shell.nano_status = "[ status ]".to_string();
    let mut sched = Scheduler::new();
    assert!(sched.add_task("Shell", 10_000_000, 1, 0, 2));
    assert!(sched.add_task("A-very-long-name", 10, 1, 0, 2));
    sched.tasks[0].last_cost = 1234;
    sched.tasks[0].status = TaskStatus::Success;
    sched.tasks[1].status = TaskStatus::Penalty;
    let infos = sched.snapshot();
    assert_eq!(infos.len(), 2);
    assert_eq!((infos[1].index, infos[1].name.as_str(), infos[1].budget, infos[1].status), (1, "A-very-long-name", 10, TaskStatus::Penalty));
    shell.update_windows(&root, (5 * 1024 + 1023, 32 * 1024 * 1024), &infos);
    // each command is typed into the window that was active at the time
    assert_eq!(shell.windows[0].text_buffer, "Chronos Terminal v1.0\n> top\n");
    assert_eq!(
        shell.windows[1].text_buffer,
        "TASK MANAGER\n----------------------------------\nMemory: 5 / 32768 KB\n\nID   NAME          STATUS    COST\n 0   Shell         OK            1234\n 1   A-very-long-name  PENT             0\n"
    );
    assert_eq!(
        shell.windows[2].text_buffer,
        "EXPLORER: /\n----------------------------------\n\n [DIR]  docs\n [FILE] hello.txt\n [FILE] blob\n [FILE] .bash_history\n\n----------------------------------\nDouble-click to open (Simulated)\n"
    );
    let nano = &shell.windows[3];
    // the status bar is white, the key rows stand on black
    assert_eq!(nano.data[(450 - 50) * 600 + 2], 0xFFFFFFFF);
    assert_eq!(nano.data[(450 - 33) * 600 + 597], 0xFFFFFFFF);
    assert_eq!(nano.data[(450 - 32) * 600 + 2], 0xFF000000);
    let mut bars = Window::new(100, 100, 600, 450, "Nano - a");
    bars.print("> ");
    Shell::update_nano(&mut bars, "[ status ]");
    assert_eq!(nano.data, bars.data);
    let before = bars.data.clone();
    Shell::update_browser(&mut bars);
    assert_eq!(bars.data, before);
    assert_eq!(sched.load_of("Shell"), 0);
    sched.tasks[0].last_cost = 2_500_000;
    assert_eq!(sched.load_of("Shell"), 25);
    assert_eq!(sched.load_of("nobody"), 0);
    sched.tasks[1].budget = 0;
    assert_eq!(sched.load_of("A-very-long-name"), 0);
}

#[test]
fn the_mouse_raises_drags_and_closes_windows() {
    let mut root = tree();
    let mut shell = Shell::new(&root);
    enter(&mut shell, &mut root, "term");
    // Terminal 1 at (50,50), Terminal 2 at (110,110), both 700 by 400
    let mut drag = Drag { active: false, offset_x: 0, offset_y: 0 };
    // a click on the title bar of the lower window raises it and starts a drag
    assert!(!shell.handle_pointer(&mut drag, 60, 60, true, 1024, 768));
    assert_eq!(shell.windows[1].title, "Terminal 1");
    assert_eq!(shell.active_idx, 1);
    assert_eq!(drag, Drag { active: true, offset_x: 10, offset_y: 10 });
    assert!(!shell.handle_pointer(&mut drag, 200, 300, true, 1024, 768));
    assert_eq!((shell.windows[1].x, shell.windows[1].y), (190, 290));
    assert!(!shell.handle_pointer(&mut drag, 5, 5, true, 1024, 768));
    assert_eq!((shell.windows[1].x, shell.windows[1].y), (190, 290));
    assert!(!shell.handle_pointer(&mut drag, 5, 5, false, 1024, 768));
    assert!(!drag.active);
    // a click into the content selects
    assert!(!shell.handle_pointer(&mut drag, 190 + 6, 290 + 24, true, 1024, 768));
    assert_eq!(shell.windows[1].selection_start, Some(0));
    assert!(shell.windows[1].is_selecting);
    assert!(!shell.handle_pointer(&mut drag, 190 + 6 + 27, 290 + 24, true, 1024, 768));
    assert_eq!(shell.windows[1].selection_end, Some(3));
    shell.handle_pointer(&mut drag, 0, 0, false, 1024, 768);
    assert!(!shell.windows[1].is_selecting);
    // maximize: the button starts at 700 - 2 - 16 - 2 - 16 - 4 = 660
    assert!(!shell.handle_pointer(&mut drag, 190 + 662, 290 + 5, true, 1024, 768));
    let top = &shell.windows[1];
    assert!(top.maximized);
    assert_eq!((top.x, top.y, top.width, top.height), (0, 0, 1024, 738));
    shell.handle_pointer(&mut drag, 0, 0, false, 1024, 768);
    assert!(!shell.handle_pointer(&mut drag, 986, 5, true, 1024, 768));
    assert_eq!((shell.windows[1].x, shell.windows[1].width), (190, 700));
    shell.handle_pointer(&mut drag, 0, 0, false, 1024, 768);
    // nothing under the mouse
    assert!(!shell.handle_pointer(&mut drag, 1000, 760, true, 1024, 768));
    assert_eq!(shell.windows.len(), 2);
    // close: the button starts at 680
    assert!(shell.handle_pointer(&mut drag, 190 + 682, 290 + 5, true, 1024, 768));
    assert_eq!(shell.windows.len(), 1);
    assert_eq!(shell.windows[0].title, "Terminal 2");
    assert_eq!(shell.active_idx, 0);
    shell.handle_pointer(&mut drag, 0, 0, false, 1024, 768);
    // the last window stays
    assert!(!shell.handle_pointer(&mut drag, 110 + 682, 110 + 5, true, 1024, 768));
    assert_eq!(shell.windows.len(), 1);
}

#[test]
fn taskbar_shows_the_time() {
    let bar = taskbar(1024, 768, Time { hours: 7, minutes: 5, seconds: 59 });
    assert_eq!((bar.x, bar.y, bar.width, bar.height), (0, 738, 1024, 30));
    assert_eq!(bar.title, "Taskbar");
    assert_eq!(bar.text_buffer, "07:05:59");
    assert_eq!((bar.cursor_x, bar.cursor_y), (924 + 8 * 7, 5));
    let mut same = Window::new(0, 738, 1024, 30, "Taskbar");
    same.set_cursor(924, 5);
    same.print("07:05:59");
    assert_eq!(bar.data, same.data);
    assert_eq!(taskbar(100, 30, Time { hours: 23, minutes: 0, seconds: 0 }).text_buffer, "23:00:00");
    assert_eq!(taskbar(200, 30, Time { hours: 255, minutes: 255, seconds: 255 }).text_buffer, "255:255:255");
}

#[test]
fn a_sector_is_shown_as_text() {
    let mut sector = vec![0u8; 512];
    sector[..5].copy_from_slice(b"hi\x01~\x7f");
    assert_eq!(sector_text(&sector), "hi.~.");
    assert_eq!(sector_text(&[]), "");
    assert_eq!(sector_text(&[0, 65]), "");
    assert_eq!(sector_text(&[65, 200, 31, 32]), "A.. ");
    let full = vec![b'x'; 600];
    assert_eq!(sector_text(&full).len(), 512);
}

#[test]
fn a_text_fills_a_sector() {
    let sector = text_sector("hello disk");
    assert_eq!(sector.len(), 512);
    assert_eq!(&sector[..10], b"hello disk");
    assert!(sector[10..].iter().all(|b| *b == 0));
    assert_eq!(text_sector(""), vec![0u8; 512]);
    let long = "ab".repeat(300);
    let sector = text_sector(&long);
    assert_eq!(sector.len(), 512);
    assert_eq!(&sector[..], &long.as_bytes()[..512]);
    let sector = text_sector("é");
    assert_eq!(&sector[..3], &[0xC3, 0xA9, 0]);
}

#[test]
fn the_mouse_needs_windows_that_fit_the_screen() {
    let root = tree();
    let shell = Shell::new(&root);
    assert!(shell.can_point(1024, 768));
    assert!(!shell.can_point(1024, 29));
    assert!(!shell.can_point(1024, 74));
    assert!(shell.can_point(1024, 75));
    assert!(!shell.can_point(39, 768));
    assert!(shell.can_point(40, 768));
    assert!(!shell.can_point(0x7fff_0001, 768));

    let plain = Window::new(0, 0, 100, 100, "Terminal");
    assert!(window_pointable(&plain, 640, 75));
    assert!(!window_pointable(&plain, 640, 74));
    let editor = Window::new(0, 0, 100, 100, "Nano - notes");
    assert!(!window_pointable(&editor, 640, 127));
    assert!(window_pointable(&editor, 640, 128));
    let mut thin = Window::new(0, 0, 100, 100, "Terminal");
    thin.width = 39;
    assert!(window_pointable(&thin, 640, 480));
    thin.width = 2;
    assert!(window_pointable(&thin, 640, 480));
    thin.width = 1;
    assert!(!window_pointable(&thin, 640, 480));
}

#[test]
fn the_monitor_is_shown_in_a_window_too_low_to_scroll() {
    let mut win = Window::new(0, 0, 300, 40, "System Monitor");
    Shell::update_monitor(&mut win, (2048, 4096), &Vec::new());
    assert!(win.text_buffer.starts_with("TASK MANAGER\n"));
    assert!(win.text_buffer.contains("Memory: 2 / 4 KB\n\n"));
    assert_eq!((win.cursor_x, win.cursor_y), (6, 24 + 5 * 18));
    let root = tree();
    let mut win = Window::new(0, 0, 300, 40, "File Explorer");
    Shell::update_explorer(&mut win, &root, "/nowhere");
    assert!(win.text_buffer.starts_with("EXPLORER: /nowhere\n"));
}
