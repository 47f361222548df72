use jete::text::Rev;
use jete::text::Text;

#[test]
fn can_extract_entered_lines() {
    let mut t = Text::new();
    t.insert_line(0, "hello");
    t.insert_line(1, "world");

    let l = t.line(0).expect("inserted line not present");
    assert_eq!(*l.content_string(), "hello");

    let l = t.line(1).expect("inserted line not present");
    assert_eq!(*l.content_string(), "world");
}

#[test]
fn iterate_over_contained_range() {
    let mut t = Text::new();
    t.insert_line(0, "hello");
    t.insert_line(1, "world");
    t.insert_line(2, "how");
    t.insert_line(3, "are");
    t.insert_line(4, "you");

    let mut it = t.iter_line_range(0, 5);

    assert_eq!(it.next().map(|lv| lv.content_str().to_string()), Some("hello".to_string()));
    assert_eq!(it.next().map(|lv| lv.content_str().to_string()), Some("world".to_string()));
    assert_eq!(it.next().map(|lv| lv.content_str().to_string()), Some("how".to_string()));
    assert_eq!(it.next().map(|lv| lv.content_str().to_string()), Some("are".to_string()));
    assert_eq!(it.next().map(|lv| lv.content_str().to_string()), Some("you".to_string()));
    assert!(it.next().is_none());

    let mut it = t.iter_line_range(0, 2);

    assert_eq!(it.next().map(|lv| lv.content_str().to_string()), Some("hello".to_string()));
    assert_eq!(it.next().map(|lv| lv.content_str().to_string()), Some("world".to_string()));
    assert!(it.next().is_none());

    let mut it = t.iter_line_range(3, 7);

    assert_eq!(it.next().map(|lv| lv.content_str().to_string()), Some("are".to_string()));
    assert_eq!(it.next().map(|lv| lv.content_str().to_string()), Some("you".to_string()));
    assert!(it.next().is_none());
}

#[test]
fn get_line_number_beyond_current_count_populates_empty() {
    let mut t = Text::new();
    let l = t.line_mut_populate(24);

    // newly "got" line is empty
    assert_eq!(&*l.content_string(), "");
    assert_eq!(l.char_count(), 0);
    l.insert(0, 'x');
    assert_eq!(&*l.content_string(), "x");
    assert_eq!(l.char_count(), 1);

    assert_eq!(t.line_count(), 25);
}

#[test]
fn test_revisions_get_bumped() {
    let mut t = Text::new();
    t.insert_line(0, "hello world");
    t.insert_line(1, "lorem ipsum");
    t.insert_line(2, "dolor sit amet, consectetur adipiscing elit");
    t.insert_line(3, "Donec cursus malesuada dui eu sagittis");

    let l = t.line_mut(2).unwrap();
    l.insert(5, 'x');

    let mut max_so_far = Rev::default();
    let mut lines = t.iter_lines();
    while let Some(l) = lines.next() {
        assert!(l.rev() <= l.max_rev_before());
        assert!(l.max_rev_before() >= max_so_far);
        max_so_far = max_so_far.max(l.max_rev_before());
    }

    let mut line_iter = t.iter_lines();
    assert_eq!(line_iter.next().unwrap().rev(), Rev::from(1));
    assert_eq!(line_iter.next().unwrap().rev(), Rev::from(2));
    assert_eq!(line_iter.next().unwrap().rev(), Rev::from(5));
    assert_eq!(line_iter.next().unwrap().rev(), Rev::from(4));
    assert!(line_iter.next().is_none());

    let mut line_iter = t.iter_lines();
    assert_eq!(line_iter.next().unwrap().max_rev_before(), Rev::from(1));
    assert_eq!(line_iter.next().unwrap().max_rev_before(), Rev::from(2));
    assert_eq!(line_iter.next().unwrap().max_rev_before(), Rev::from(5));
    assert_eq!(line_iter.next().unwrap().max_rev_before(), Rev::from(5));
    assert!(line_iter.next().is_none());
}

#[test]
fn identities_are_given_in_order_and_never_again() {
    let mut t = Text::new();
    t.insert_line(0, "a");
    t.insert_line(1, "b");
    t.insert_line(2, "c");
    let ids: Vec<u64> = [0, 1, 2].iter().map(|i| t.line(*i).unwrap().id().value()).collect();
    assert_eq!(ids, vec![1, 2, 3]);

    let removed = t.remove_line(1).expect("line 1 is there");
    assert_eq!(removed.id().value(), 2);
    assert_eq!(*removed.content_string(), "b");
    assert_eq!(t.line_count(), 2);
    assert_eq!(t.line(0).unwrap().id().value(), 1);
    assert_eq!(t.line(1).unwrap().id().value(), 3);

    t.insert_line(1, "d");
    assert_eq!(t.line(1).unwrap().id().value(), 4);
    assert_eq!(t.last_line_id().value(), 4);
    assert_eq!(t.line(0).unwrap().id().value(), 1);
    assert_eq!(t.line(2).unwrap().id().value(), 3);
}

#[test]
fn every_mutation_raises_the_revision_by_one() {
    let mut t = Text::new();
    assert_eq!(t.rev(), Rev::from(0));
    t.insert_line(0, "a");
    assert_eq!(t.rev(), Rev::from(1));
    t.insert_line_from_chars(1, vec!['b', 'c']);
    assert_eq!(t.rev(), Rev::from(2));
    t.line_mut(0).unwrap().insert(1, 'x');
    assert_eq!(t.rev(), Rev::from(3));
    assert_eq!(t.line(0).unwrap().rev(), Rev::from(3));
    t.line_mut_populate(1).remove_char(0);
    assert_eq!(t.rev(), Rev::from(4));
    assert_eq!(t.line(1).unwrap().rev(), Rev::from(4));
    assert_eq!(*t.line(1).unwrap().content_string(), "c");
    t.remove_line(0);
    assert_eq!(t.rev(), Rev::from(5));
}

#[test]
fn removing_a_missing_line_changes_nothing() {
    let mut t = Text::new();
    t.insert_line(0, "a");
    assert!(t.remove_line(1).is_none());
    assert!(t.remove_line(7).is_none());
    assert_eq!(t.rev(), Rev::from(1));
    assert_eq!(t.line_count(), 1);
    assert!(t.line(1).is_none());
}

#[test]
fn line_mut_on_a_missing_line_gives_none_but_counts() {
    let mut t = Text::new();
    t.insert_line(0, "a");
    assert!(t.line_mut(3).is_none());
    assert_eq!(t.rev(), Rev::from(2));
    assert_eq!(t.line_count(), 1);
    assert_eq!(t.line(0).unwrap().rev(), Rev::from(1));
}

#[test]
fn loaded_text_has_revision_zero_and_identities_from_one() {
    let lines = vec!["one".to_string(), "two".to_string(), "".to_string()];
    let t = Text::from(&lines);
    assert_eq!(t.rev(), Rev::from(0));
    assert_eq!(t.line_count(), 3);
    assert_eq!(t.last_line_id().value(), 3);
    let mut it = t.iter_lines();
    let mut seen = Vec::new();
    while let Some(l) = it.next() {
        seen.push((l.line_number(), l.id().value(), l.rev().value(), l.content_str().to_string()));
    }
    assert_eq!(
        seen,
        vec![
            (0, 1, 0, "one".to_string()),
            (1, 2, 0, "two".to_string()),
            (2, 3, 0, "".to_string())
        ]
    );
}

#[test]
fn line_edits_keep_the_string_form_in_step() {
    let mut t = Text::new();
    t.insert_line(0, "hello world");
    let l = t.line_mut(0).unwrap();
    let rest = l.split_off(5);
    assert_eq!(rest, vec![' ', 'w', 'o', 'r', 'l', 'd']);
    assert_eq!(*l.content_string(), "hello");
    assert_eq!(l.char_count(), 5);
    l.remove_char(0);
    assert_eq!(*l.content_string(), "ello");

    t.insert_line(1, String::from("!!"));
    let tail = t.remove_line(1).unwrap();
    t.line_mut(0).unwrap().extend_line(tail);
    assert_eq!(*t.line(0).unwrap().content_string(), "ello!!");
    let copy = t.line(0).unwrap().clone();
    assert_eq!(*copy.content_string(), "ello!!");
    assert_eq!(copy.rev(), t.line(0).unwrap().rev());
}

#[test]
fn recorded_revision_is_in_effect_from_its_index_on() {
    let mut t = Text::new();
    t.insert_line(0, "a");
    t.insert_line(1, "b");
    t.insert_line(2, "c");
    t.insert_line(3, "d");
    assert_eq!(t.rev_in_effect(0), Rev::from(1));
    assert_eq!(t.rev_in_effect(3), Rev::from(4));
    assert_eq!(t.rev_in_effect(900), Rev::from(4));
    assert_eq!(t.rev_in_effect(usize::MAX), Rev::from(4));

    // a change at index 1 is in effect for every index from 1 on
    t.line_mut(1).unwrap().insert(0, 'x');
    assert_eq!(t.rev_in_effect(0), Rev::from(1));
    assert_eq!(t.rev_in_effect(1), Rev::from(5));
    assert_eq!(t.rev_in_effect(2), Rev::from(5));
    assert_eq!(t.rev_in_effect(3), Rev::from(5));

    t.remove_line(0);
    assert_eq!(t.rev_in_effect(0), Rev::from(6));
    assert_eq!(t.rev_in_effect(3), Rev::from(6));
    assert_eq!(Text::new().rev_in_effect(5), Rev::from(0));
}

#[test]
fn snapshot_does_not_follow_later_edits() {
    let mut t = Text::new();
    t.insert_line(0, "a");
    let before = t.view();
    t.line_mut(0).unwrap().insert(1, 'b');
    t.insert_line(1, "c");
    assert_eq!(before.line_count(), 1);
    assert_eq!(before.rev(), Rev::from(1));
    let mut it = before.clone().iter_lines();
    let l = it.next().unwrap();
    assert_eq!(*l.content_str(), "a");
    assert_eq!(l.rev(), Rev::from(1));
    assert!(it.next().is_none());
    assert_eq!(t.view().line_count(), 2);
}

#[test]
fn range_that_starts_past_the_end_is_empty() {
    let mut t = Text::new();
    t.insert_line(0, "a");
    assert!(t.iter_line_range(1, 5).next().is_none());
    assert!(t.iter_line_range(4, 2).next().is_none());
    assert!(Text::new().iter_lines().next().is_none());
}

fn columns(t: &Text) -> Vec<(u64, u64)> {
    let mut out = Vec::new();
    let mut it = t.iter_lines();
    while let Some(l) = it.next() {
        out.push((l.rev().value(), l.max_rev_before().value()));
    }
    out
}

#[test]
fn removal_counts_for_every_line_at_or_after_it() {
    let mut t = Text::new();
    t.insert_line(0, "a");
    t.insert_line(1, "b");
    t.insert_line(2, "c");
    assert_eq!(columns(&t), vec![(1, 1), (2, 2), (3, 3)]);
    t.remove_line(0);
    assert_eq!(columns(&t), vec![(2, 4), (3, 4)]);
}

#[test]
fn insertion_counts_for_every_line_at_or_after_it() {
    let mut t = Text::from(&["a".to_string(), "b".to_string(), "c".to_string()]);
    assert_eq!(columns(&t), vec![(0, 0), (0, 0), (0, 0)]);
    t.insert_line(1, "x");
    assert_eq!(columns(&t), vec![(0, 0), (1, 1), (0, 1), (0, 1)]);
    t.line_mut(2).unwrap().insert(0, 'y');
    assert_eq!(columns(&t), vec![(0, 0), (1, 1), (2, 2), (0, 2)]);
    t.line_mut(0).unwrap().insert(0, 'z');
    assert_eq!(columns(&t), vec![(3, 3), (1, 3), (2, 3), (0, 3)]);
}

#[test]
fn lines_added_to_reach_an_index_record_their_revision() {
    let mut t = Text::new();
    t.insert_line(0, "a");
    t.line_mut_populate(3).insert(0, 'x');
    assert_eq!(columns(&t), vec![(1, 1), (2, 2), (2, 2), (2, 2)]);
    assert_eq!(t.rev_in_effect(0), Rev::from(1));
    assert_eq!(t.rev_in_effect(1), Rev::from(2));
    assert_eq!(t.rev_in_effect(3), Rev::from(2));

    let mut e = Text::new();
    e.line_mut_populate(1);
    assert_eq!(columns(&e), vec![(1, 1), (1, 1)]);
}

#[test]
fn greatest_revision_column_never_falls() {
    let mut t = Text::new();
    t.insert_line(0, "a");
    t.insert_line(0, "b");
    t.insert_line(2, "c");
    t.line_mut(1).unwrap().insert(0, 'x');
    t.remove_line(2);
    t.insert_line(1, "d");
    t.line_mut_populate(5);
    t.line_mut(0).unwrap().insert(0, 'y');
    t.remove_line(3);
    let cols = columns(&t);
    assert_eq!(cols.len(), 5);
    let mut before = 0;
    for (rev, max_rev_before) in cols {
        assert!(rev <= max_rev_before);
        assert!(before <= max_rev_before);
        before = max_rev_before;
    }
}
