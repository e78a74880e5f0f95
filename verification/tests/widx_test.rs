use ropey::{Rope, RopeBuilder, RopeSlice};
use rsvim_core::buf::idx::widx::BufWindex;
use rsvim_core::buf::opt::{BufferLocalOptions, FileEncoding};
use std::collections::BTreeMap;

fn make_rope_from_lines(lines: Vec<&str>) -> Rope {
    let mut builder = RopeBuilder::new();
    for line in lines.iter() {
        builder.append(line);
    }
    builder.finish()
}

fn assert_width_until(
    options: &BufferLocalOptions,
    rope_line: &RopeSlice,
    actual: &mut BufWindex,
    expect: &Vec<(usize, Option<usize>)>,
) {
    for (i, e) in expect.iter() {
        let a = actual.width_until(options, rope_line, *i);
        assert_eq!(a, *e);
        assert!(actual._internal_check());
    }
}

fn ascending(expect: &Vec<Option<usize>>) -> Vec<(usize, Option<usize>)> {
    expect.iter().cloned().enumerate().collect()
}

fn descending(expect: &Vec<(usize, Option<usize>)>) -> Vec<(usize, Option<usize>)> {
    expect.iter().filter(|e| e.1.is_some()).rev().cloned().collect()
}

#[test]
fn width_until1() {
    let options = BufferLocalOptions::default();
    let rope = make_rope_from_lines(vec!["Hello,\tRSVIM!\n"]);
    let mut actual = BufWindex::new();

    // 1-6, 14-20, 20
    let expect: Vec<(usize, Option<usize>)> = [
        (0..=5).map(|i| (i, Some(i + 1))).collect(),
        (6..=12).map(|i| (i, Some(i + 8))).collect(),
        vec![(13, Some(20)), (14, None), (15, None), (16, None)],
    ]
    .concat();
    assert_width_until(&options, &rope.line(0), &mut actual, &expect);

    let expect: Vec<(usize, Option<usize>)> = descending(&expect);
    assert_width_until(&options, &rope.line(0), &mut actual, &expect);
}

#[test]
fn width_until2() {
    let options = BufferLocalOptions::default();
    let rope = make_rope_from_lines(vec!["This is a quite simple and small test lines.\n"]);
    let mut actual = BufWindex::new();

    assert_eq!(actual.width_until(&options, &rope.line(0), 43), Some(44));

    // 1-44
    let expect: Vec<Option<usize>> = [
        (1..=44).map(|i| Some(i)).collect(),
        vec![Some(44), None, None, None],
    ]
    .concat();
    let expect = ascending(&expect);

    let expect1 = descending(&expect);
    assert_width_until(&options, &rope.line(0), &mut actual, &expect1);

    assert_width_until(&options, &rope.line(0), &mut actual, &expect);
}

#[test]
fn width_until3() {
    let options = BufferLocalOptions::default();
    let rope = make_rope_from_lines(vec!["But still\tit\\包含了好几种东西we want to test:\n"]);
    let mut actual = BufWindex::new();

    // 1-9, 17-20, 22-36, 37-52, 52
    let expect: Vec<Option<usize>> = [
        (1..=9).map(|i| Some(i)).collect(),
        (17..=20).map(|i| Some(i)).collect(),
        (22..=29)
            .scan(22, |state, i| {
                let diff: usize = i - *state;
                Some(Some(*state + 2 * diff))
            })
            .collect(),
        (37..=52).map(|i| Some(i)).collect(),
        vec![Some(52), None, None, None],
    ]
    .concat();
    let expect = ascending(&expect);
    assert_width_until(&options, &rope.line(0), &mut actual, &expect);

    let expect = descending(&expect);
    assert_width_until(&options, &rope.line(0), &mut actual, &expect);
}

#[test]
fn width_until4() {
    let options = BufferLocalOptions::default();
    let rope = make_rope_from_lines(vec!["  1. When the\r"]);
    let mut actual = BufWindex::new();

    assert_eq!(actual.width_until(&options, &rope.line(0), 10), Some(11));

    // 1-13, 13
    let expect: Vec<Option<usize>> = [
        (1..=13).map(|i| Some(i)).collect(),
        vec![Some(13), None, None, None],
    ]
    .concat();
    let expect = ascending(&expect);
    assert_width_until(&options, &rope.line(0), &mut actual, &expect);

    let expect = descending(&expect);
    assert_width_until(&options, &rope.line(0), &mut actual, &expect);
}

#[test]
fn width_until5() {
    let options = BufferLocalOptions::default();
    let rope = make_rope_from_lines(vec![
        "一行文本小到可以放入一个窗口中，那么line-wrap和word-wrap选项就不会影响排版。\n",
    ]);
    let mut actual = BufWindex::new();
    // 2-36, 37-45, 47, 48-56, 58-76, 76
    let expect: Vec<Option<usize>> = [
        (1..=18).map(|i| Some(i * 2)).collect(),
        (37..=45).map(|i| Some(i)).collect(),
        vec![Some(47)],
        (48..=56).map(|i| Some(i)).collect(),
        (58..=67)
            .scan(58, |state, i| {
                let diff: usize = i - *state;
                Some(Some(*state + 2 * diff))
            })
            .collect(),
        vec![Some(76), None, None, None],
    ]
    .concat();
    let expect = ascending(&expect);
    assert_width_until(&options, &rope.line(0), &mut actual, &expect);

    let expect = descending(&expect);
    assert_width_until(&options, &rope.line(0), &mut actual, &expect);
}

#[test]
fn width_until6() {
    let options = BufferLocalOptions::default();
    let rope = make_rope_from_lines(vec![
        "\t\t2. When the line is too long to be completely put in a row of the window content widget, there're multiple cases:\n",
    ]);
    let mut actual = BufWindex::new();

    assert_eq!(actual.width_until(&options, &rope.line(0), 2), Some(17));

    // 8, 16, 17-129, 129
    let expect: Vec<Option<usize>> = [
        vec![Some(8), Some(16)],
        (17..=129).map(|i| Some(i)).collect(),
        vec![Some(129), None, None, None],
    ]
    .concat();
    let expect = ascending(&expect);

    let expect1 = descending(&expect);
    assert_width_until(&options, &rope.line(0), &mut actual, &expect1);

    assert_width_until(&options, &rope.line(0), &mut actual, &expect);
}

#[test]
fn width_never_decreases() {
    let options = BufferLocalOptions::default();
    let rope = Rope::from_str("a\tb\u{301}\u{4f60}\u{1}\r\n");
    let line = rope.line(0);
    let mut index = BufWindex::new();
    let mut last = 0;
    for i in 0..line.len_chars() {
        let w = index.width_until(&options, &line, i).unwrap();
        assert!(w >= last);
        last = w;
    }
    assert_eq!(last, 14);
    assert_eq!(index.width_until(&options, &line, line.len_chars()), None);
}

#[test]
fn width_between_is_a_difference() {
    let options = BufferLocalOptions::default();
    let rope = Rope::from_str("Hello,\tRSVIM!\n");
    let line = rope.line(0);
    let mut index = BufWindex::new();
    assert_eq!(index.width_between(&options, &line, 0..=0), Some(0));
    assert_eq!(index.width_between(&options, &line, 0..=5), Some(5));
    assert_eq!(index.width_between(&options, &line, 5..=6), Some(8));
    assert_eq!(index.width_between(&options, &line, 2..=13), Some(17));
    assert_eq!(index.width_between(&options, &line, 12..=13), Some(0));
    assert_eq!(index.width_between(&options, &line, 3..=14), None);
    assert_eq!(index.width_between(&options, &line, 14..=20), None);
    for a in 0..14 {
        for b in a..14 {
            let mut fresh = BufWindex::new();
            let until_a = fresh.width_until(&options, &line, a).unwrap();
            let until_b = fresh.width_until(&options, &line, b).unwrap();
            assert_eq!(
                index.width_between(&options, &line, a..=b),
                Some(until_b - until_a)
            );
        }
    }
    assert!(index._internal_check());
}

#[test]
fn tab_stop_decides_the_width_of_a_tab() {
    let options = BufferLocalOptions::new(4, FileEncoding::Utf8);
    let rope = Rope::from_str("a\tb");
    let line = rope.line(0);
    let mut index = BufWindex::new();
    assert_eq!(index.width_until(&options, &line, 2), Some(6));
    assert_eq!(index.width_until(&options, &line, 1), Some(5));
}

#[test]
fn empty_line_has_no_character() {
    let options = BufferLocalOptions::default();
    let rope = Rope::new();
    let line = rope.line(0);
    let mut index = BufWindex::new();
    assert_eq!(index.width_until(&options, &line, 0), None);
    assert_eq!(index.char_at(0), None);
    assert!(index._internal_check());
}

#[test]
fn char_at_finds_the_character_of_a_width() {
    let options = BufferLocalOptions::default();
    let rope = Rope::from_str("ab\u{4f60}\u{301}c\n");
    let line = rope.line(0);
    let mut index = BufWindex::new();
    // 1, 2, 4, 4, 5, 5
    assert_eq!(index.width_until(&options, &line, 5), Some(5));
    assert_eq!(index.char_at(0), Some(0));
    assert_eq!(index.char_at(1), Some(0));
    assert_eq!(index.char_at(2), Some(1));
    assert_eq!(index.char_at(3), Some(2));
    assert_eq!(index.char_at(4), Some(3));
    assert_eq!(index.char_at(5), Some(5));
    assert_eq!(index.char_at(6), None);
    let copy = index.clone();
    assert_eq!(copy.char_at(4), Some(3));
    assert_eq!(BufWindex::default().char_at(0), None);
}

#[test]
fn set_width_at_cuts_the_index_back() {
    let options = BufferLocalOptions::default();
    let rope = Rope::from_str("abcdef");
    let line = rope.line(0);
    let mut index = BufWindex::new();
    assert_eq!(index.width_until(&options, &line, 5), Some(6));
    index.set_width_at(2, 2);
    assert!(index._internal_check());
    // The entries 0 and 1 stay, the entry 2 is written anew, the others go.
    assert_eq!(index.char_at(2), Some(1));
    assert_eq!(index.char_at(4), Some(2));
    assert_eq!(index.char_at(5), None);
    // What follows is worked out again from the line.
    assert_eq!(index.width_until(&options, &line, 3), Some(5));
    // An index that has not reached the character stays as it is.
    index.set_width_at(9, 1);
    assert_eq!(index.char_at(5), Some(3));
    assert_eq!(index.char_at(6), None);
    // The character after the last cached one can be given a width.
    index.set_width_at(4, 3);
    assert_eq!(index.char_at(8), Some(4));
    assert!(index._internal_check());
}

#[test]
fn set_width_between_sets_a_run() {
    let options = BufferLocalOptions::default();
    let rope = Rope::from_str("abcdef");
    let line = rope.line(0);
    let mut index = BufWindex::new();
    assert_eq!(index.width_until(&options, &line, 5), Some(6));
    let mut widths: BTreeMap<usize, usize> = BTreeMap::new();
    widths.insert(1, 2);
    widths.insert(2, 0);
    widths.insert(3, 2);
    index.set_width_between(&widths);
    assert!(index._internal_check());
    // 1, 3, 3, 5
    assert_eq!(index.char_at(1), Some(0));
    assert_eq!(index.char_at(2), Some(1));
    assert_eq!(index.char_at(3), Some(2));
    assert_eq!(index.char_at(5), Some(3));
    assert_eq!(index.char_at(6), None);
    let before = index.clone();
    index.set_width_between(&BTreeMap::new());
    assert_eq!(index.char_at(5), before.char_at(5));
    assert_eq!(index.char_at(6), None);
}
