use tracexec::envdiff::{diff_env, split_env_entry, BaselineInfo, EnvDiff};

fn baseline(pairs: &[(&[u8], &[u8])]) -> BaselineInfo {
    BaselineInfo::new(pairs.iter().map(|(k, v)| (k.to_vec(), v.to_vec())).collect())
}

fn envp(entries: &[&[u8]]) -> Vec<Vec<u8>> {
    entries.iter().map(|e| e.to_vec()).collect()
}

fn keys(pairs: &[(Vec<u8>, Vec<u8>)]) -> Vec<Vec<u8>> {
    let mut ks: Vec<Vec<u8>> = pairs.iter().map(|p| p.0.clone()).collect();
    ks.sort();
    ks
}

fn check_b_removed_c_added_a_unchanged(d: &EnvDiff) {
    assert_eq!(keys(&d.added), vec![b"C".to_vec()]);
    assert_eq!(d.added[0].1, b"3".to_vec());
    assert_eq!(keys(&d.removed), vec![b"B".to_vec()]);
    assert_eq!(d.removed[0].1, b"2".to_vec());
    assert_eq!(d.modified, Vec::new());
    assert_eq!(d.unchanged, vec![b"A".to_vec()]);
}

#[test]
fn diff_reports_added_removed_unchanged() {
    let base = baseline(&[(b"A", b"1"), (b"B", b"2")]);
    let d = diff_env(&base, &envp(&[b"A=1", b"C=3"]));
    check_b_removed_c_added_a_unchanged(&d);
}

#[test]
fn diff_is_independent_of_array_order() {
    // the same bindings, both arrays reversed: the same diff
    let base = baseline(&[(b"B", b"2"), (b"A", b"1")]);
    let d = diff_env(&base, &envp(&[b"C=3", b"A=1"]));
    check_b_removed_c_added_a_unchanged(&d);
}

#[test]
fn diff_reports_modified_with_the_traced_value() {
    let base = baseline(&[(b"PATH", b"/bin"), (b"HOME", b"/root")]);
    let d = diff_env(&base, &envp(&[b"PATH=/usr/bin", b"HOME=/root"]));
    assert_eq!(d.modified, vec![(b"PATH".to_vec(), b"/usr/bin".to_vec())]);
    assert_eq!(d.unchanged, vec![b"HOME".to_vec()]);
    assert_eq!(d.added, Vec::new());
    assert_eq!(d.removed, Vec::new());
}

#[test]
fn duplicate_traced_keys_count_by_first_occurrence() {
    let base = baseline(&[(b"A", b"1")]);
    let d = diff_env(&base, &envp(&[b"A=2", b"A=9"]));
    assert_eq!(d.modified, vec![(b"A".to_vec(), b"2".to_vec())]);
    assert_eq!(d.added, Vec::new());
}

#[test]
fn empty_baseline_and_empty_envp() {
    let base = baseline(&[]);
    let d = diff_env(&base, &envp(&[]));
    assert_eq!(d.added, Vec::new());
    assert_eq!(d.removed, Vec::new());
    assert_eq!(d.modified, Vec::new());
    assert_eq!(d.unchanged, Vec::<Vec<u8>>::new());
}

#[test]
fn split_at_first_equals_sign() {
    assert_eq!(
        split_env_entry(&b"PATH=/bin:/usr/bin".to_vec()),
        (b"PATH".to_vec(), b"/bin:/usr/bin".to_vec())
    );
    assert_eq!(
        split_env_entry(&b"X=a=b".to_vec()),
        (b"X".to_vec(), b"a=b".to_vec())
    );
}

#[test]
fn split_entry_without_separator_takes_empty_value() {
    assert_eq!(split_env_entry(&b"TERM".to_vec()), (b"TERM".to_vec(), b"".to_vec()));
}

#[test]
fn split_entry_starting_with_equals_uses_the_next_one() {
    assert_eq!(
        split_env_entry(&b"=C:=C:\\".to_vec()),
        (b"=C:".to_vec(), b"C:\\".to_vec())
    );
}

#[test]
fn baseline_deduplicates_keeping_the_first_binding() {
    let base = baseline(&[(b"A", b"1"), (b"A", b"2"), (b"B", b"3")]);
    assert_eq!(base.len(), 2);
    assert_eq!(base.get(&b"A".to_vec()), Some(b"1".to_vec()));
    assert_eq!(base.get(&b"B".to_vec()), Some(b"3".to_vec()));
    assert_eq!(base.get(&b"C".to_vec()), None);
}
