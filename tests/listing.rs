use rls::config::CmdArgs;
use rls::entry::{get_user, EntryMeta, File};
use rls::kind::{KindFlags, PathDetails};
use rls::listing::Directory;
use rls::perms::{get_perms, mode_to_output_map};
use rls::size::get_size;
use rls::sort::{get_sort_type, reverse_files, size_sort, name_sort, sort_as, SortCriteria};
use rls::text::{chars_lt, spaces_text};
use rls::timefmt::get_time;

fn no_flags() -> KindFlags {
    KindFlags {
        is_dir: false,
        is_symlink: false,
        is_fifo: false,
        is_char_device: false,
        is_block_device: false,
        is_socket: false,
    }
}

fn dir_flags() -> KindFlags {
    KindFlags { is_dir: true, ..no_flags() }
}

fn meta(name: &str, flags: KindFlags, size: u64, t: i128) -> EntryMeta {
    EntryMeta {
        path: format!("/d/{}", name),
        name: name.to_string(),
        flags,
        user_name: Some("alice".to_string()),
        group_name: Some("staff".to_string()),
        mode: 0o644,
        size,
        created_ns: t,
        modified_ns: t * 2,
        accessed_ns: 100 - t,
        created_text: format!("c{}", t),
        modified_text: format!("m{}", t),
        accessed_text: format!("a{}", t),
    }
}

fn sample_dir(args: CmdArgs) -> Directory {
    Directory::new(
        vec![
            meta("a.txt", no_flags(), 10, 1),
            meta(".b", no_flags(), 0, 2),
            meta("Sub", dir_flags(), 4096, 3),
        ],
        args,
    )
}

fn names(d: &Directory) -> Vec<String> {
    d.paths.iter().map(|f| f.name.clone()).collect()
}

fn args() -> CmdArgs {
    CmdArgs::new(".".to_string())
}

#[test]
fn classify_plain_file_is_fallback_only() {
    assert_eq!(PathDetails::new(&no_flags()), vec![PathDetails::Path]);
}

#[test]
fn classify_keeps_every_match_in_order() {
    let f = KindFlags { is_dir: true, is_symlink: true, is_socket: true, ..no_flags() };
    assert_eq!(
        PathDetails::new(&f),
        vec![PathDetails::Directory, PathDetails::Symlink, PathDetails::Socket]
    );
    let p = KindFlags { is_fifo: true, ..no_flags() };
    assert_eq!(PathDetails::new(&p), vec![PathDetails::Pipe]);
}

#[test]
fn glyphs_of_each_kind() {
    assert_eq!(PathDetails::Directory.type_to_char_map(), 'd');
    assert_eq!(PathDetails::Symlink.type_to_char_map(), 'l');
    assert_eq!(PathDetails::CharDevice.type_to_char_map(), 'c');
    assert_eq!(PathDetails::BlockDevice.type_to_char_map(), 'b');
    assert_eq!(PathDetails::Socket.type_to_char_map(), 's');
    assert_eq!(PathDetails::Pipe.type_to_char_map(), '-');
    assert_eq!(PathDetails::Path.type_to_char_map(), '-');
}

#[test]
fn permission_triads() {
    assert_eq!(mode_to_output_map(0o7, 4, 2, 1), "rwx");
    assert_eq!(mode_to_output_map(0o5, 4, 2, 1), "r-x");
    assert_eq!(mode_to_output_map(0o2, 4, 2, 1), "-w-");
    assert_eq!(mode_to_output_map(0o0, 4, 2, 1), "---");
}

#[test]
fn permission_strings() {
    assert_eq!(get_perms(&vec![PathDetails::Directory], 0o755), "drwxr-xr-x");
    assert_eq!(get_perms(&vec![PathDetails::Path], 0o640), "-rw-r-----");
    assert_eq!(get_perms(&vec![PathDetails::Symlink, PathDetails::Directory], 0o777), "lrwxrwxrwx");
}

#[test]
fn size_text_is_conventional() {
    assert_eq!(get_size(10), "10 B");
    assert_eq!(get_size(1000), "1000 B");
    assert_eq!(get_size(1024), "1 KB");
}

#[test]
fn unresolved_owner_is_blank() {
    assert_eq!(get_user(None), " ");
    assert_eq!(get_user(Some("root".to_string())), "root");
}

#[test]
fn entry_built_from_snapshot() {
    let f = File::new(meta("Sub", dir_flags(), 4096, 3));
    assert_eq!(f.perms, "drw-r--r--");
    assert_eq!(f.size, "4 KB");
    assert_eq!(f.name_key, vec!['s', 'u', 'b']);
    assert_eq!(f.user, "alice");
    assert!(f.is_dir());
}

#[test]
fn sort_type_precedence() {
    assert_eq!(get_sort_type([false, true, true, false, true]), SortCriteria::Created);
    assert_eq!(get_sort_type([true, true, true, true, true]), SortCriteria::Name);
    assert_eq!(get_sort_type([false, false, false, false, true]), SortCriteria::Size);
    assert_eq!(get_sort_type([false; 5]), SortCriteria::Not);
}

#[test]
fn criterion_from_sort_word() {
    let mut a = args();
    assert_eq!(a.criterion(), SortCriteria::Not);
    a.sort = "name".to_string();
    assert_eq!(a.criterion(), SortCriteria::Name);
    a.sort = "size".to_string();
    assert_eq!(a.criterion(), SortCriteria::Size);
}

#[test]
fn name_compare_is_lexicographic() {
    assert!(chars_lt(&vec!['a'], &vec!['a', 'b']));
    assert!(!chars_lt(&vec!['b'], &vec!['a', 'z']));
    assert!(!chars_lt(&vec!['a'], &vec!['a']));
}

#[test]
fn name_sort_ignores_case() {
    let mut v = vec![
        File::new(meta("b", no_flags(), 1, 1)),
        File::new(meta("A", no_flags(), 1, 1)),
        File::new(meta("C", no_flags(), 1, 1)),
    ];
    name_sort(&mut v);
    let got: Vec<String> = v.iter().map(|f| f.name.clone()).collect();
    assert_eq!(got, vec!["A", "b", "C"]);
}

#[test]
fn size_sort_is_numeric_and_stable() {
    let mut v = vec![
        File::new(meta("k", no_flags(), 1024, 1)),
        File::new(meta("m", no_flags(), 1000, 1)),
        File::new(meta("x", no_flags(), 5, 1)),
        File::new(meta("y", no_flags(), 5, 1)),
    ];
    size_sort(&mut v);
    let got: Vec<String> = v.iter().map(|f| f.name.clone()).collect();
    assert_eq!(got, vec!["x", "y", "m", "k"]);
}

#[test]
fn reverse_is_mirror_of_sort() {
    let build = || {
        vec![
            File::new(meta("b", no_flags(), 3, 1)),
            File::new(meta("a", no_flags(), 3, 2)),
            File::new(meta("c", no_flags(), 1, 3)),
        ]
    };
    let mut fwd = build();
    sort_as(&mut fwd, SortCriteria::Size, false);
    let mut rev = build();
    sort_as(&mut rev, SortCriteria::Size, true);
    reverse_files(&mut fwd);
    let f: Vec<String> = fwd.iter().map(|f| f.name.clone()).collect();
    let r: Vec<String> = rev.iter().map(|f| f.name.clone()).collect();
    assert_eq!(r, vec!["a", "b", "c"]);
    assert_eq!(f, r);
}

#[test]
fn no_sort_reversed_mirrors_input() {
    let mut v = vec![
        File::new(meta("q", no_flags(), 3, 1)),
        File::new(meta("a", no_flags(), 1, 2)),
        File::new(meta("z", no_flags(), 2, 3)),
    ];
    sort_as(&mut v, SortCriteria::Not, true);
    let got: Vec<String> = v.iter().map(|f| f.name.clone()).collect();
    assert_eq!(got, vec!["z", "a", "q"]);
}

#[test]
fn accessed_sort_compares_access_times() {
    let mut a = args();
    a.accessed = true;
    let mut d = sample_dir(a);
    d.sort();
    assert_eq!(names(&d), vec!["Sub", ".b", "a.txt"]);
}

#[test]
fn column_alignment_group_widths() {
    let mut a = meta("x", no_flags(), 1, 1);
    a.group_name = Some("abc".to_string());
    let mut b = meta("y", no_flags(), 1024, 1);
    b.group_name = Some("abcdefg".to_string());
    let mut c = meta("z", no_flags(), 10, 1);
    c.group_name = Some("a".to_string());
    let mut d = Directory::new(vec![a, b, c], args());
    d.format_output();
    for f in d.paths.iter() {
        assert_eq!(f.group.chars().count(), 8);
        assert_eq!(f.user.chars().count(), 6);
    }
    assert_eq!(d.paths[0].group, "abc     ");
    assert_eq!(d.paths[2].group, "a       ");
    assert_eq!(d.paths[0].size, "  1 B");
    assert_eq!(d.paths[1].size, " 1 KB");
}

#[test]
fn leading_dot_filter() {
    let hidden = File::new(meta(".hidden", no_flags(), 0, 1));
    let dot = File::new(meta(".", dir_flags(), 0, 1));
    let dotdot = File::new(meta("..", dir_flags(), 0, 1));
    let mut a = args();
    assert_eq!(hidden.render(&a), "");
    assert_eq!(hidden.render_long(&a), "");
    a.all_entries = true;
    assert_eq!(hidden.render(&a), ".hidden");
    assert_eq!(dot.render(&a), ".");
    let mut aa = args();
    aa.almost_all_entries = true;
    assert_eq!(hidden.render(&aa), ".hidden");
    assert_eq!(dot.render(&aa), "");
    assert_eq!(dotdot.render(&aa), "");
}

#[test]
fn render_modes_in_precedence() {
    let f = File::new(meta("n.rs", no_flags(), 10, 1));
    let mut a = args();
    assert_eq!(f.render(&a), "n.rs");
    a.comma = true;
    assert_eq!(f.render(&a), "n.rs, ");
    a.one = true;
    assert_eq!(f.render(&a), "\nn.rs");
    a.quote = true;
    assert_eq!(f.render(&a), "\"n.rs\"");
    a.display_size = true;
    assert_eq!(f.render(&a), "10 B n.rs");
}

#[test]
fn long_row_picks_time() {
    let f = File::new(meta("n.rs", no_flags(), 10, 4));
    let mut a = args();
    assert_eq!(f.render_long(&a), "-rw-r--r-- 10 B alice  staffa4 n.rs\n");
    a.modified = true;
    assert_eq!(f.render_long(&a), "-rw-r--r-- 10 B alice  staffm4 n.rs\n");
    a.created = true;
    assert_eq!(f.render_long(&a), "-rw-r--r-- 10 B alice  staffc4 n.rs\n");
}

#[test]
fn end_to_end_sort_by_name() {
    let mut a = args();
    a.sort = "name".to_string();
    let mut d = sample_dir(a);
    d.setup();
    assert_eq!(names(&d), vec![".b", "a.txt", "Sub"]);
    assert_eq!(d.render(), " a.txt Sub ");
}

#[test]
fn end_to_end_directories_only() {
    let mut a = args();
    a.only_dir = true;
    let mut d = sample_dir(a);
    d.setup();
    assert_eq!(names(&d), vec!["Sub"]);
    assert_eq!(d.render(), "Sub ");
}

#[test]
fn end_to_end_long_by_size() {
    let mut a = args();
    a.long = true;
    a.size = true;
    let mut d = sample_dir(a);
    d.setup();
    assert_eq!(names(&d), vec![".b", "a.txt", "Sub"]);
    assert_eq!(
        d.render(),
        "-rw-r--r--  10 B alice   staff a1 a.txt\ndrw-r--r--  4 KB alice   staff a3 Sub\n"
    );
}

#[test]
fn spaces_of_length() {
    assert_eq!(spaces_text(0), "");
    assert_eq!(spaces_text(3), "   ");
}

#[test]
fn time_rendering_at_offsets() {
    let t = "%Y-%m-%d %H:%M:%S";
    assert_eq!(get_time(0, 0, t), Some("1970-01-01 00:00:00".to_string()));
    assert_eq!(get_time(86_399, 3600, t), Some("1970-01-02 00:59:59".to_string()));
    assert_eq!(get_time(0, 86_400, t), None);
    assert_eq!(get_time(0, -86_400, t), None);
}

#[test]
fn time_rendering_plain_specifiers() {
    assert_eq!(
        get_time(0, 0, "%a %b %e %T %Y"),
        Some("Thu Jan  1 00:00:00 1970".to_string())
    );
    assert_eq!(get_time(253_402_300_799, 0, "%Y-%m-%d"), Some("9999-12-31".to_string()));
}
