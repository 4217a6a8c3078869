use lookalike::distance::levenshtein_distance;

#[test]
fn test_dist() {
    assert_eq!(levenshtein_distance(b"kitten", b"sitting"), 3);
    assert_eq!(levenshtein_distance(b"discord", b"dicsord"), 2)
}

#[test]
fn kitten_to_sitting_takes_three_edits() {
    assert_eq!(levenshtein_distance(b"kitten", b"sitting"), 3);
}

#[test]
fn swapped_neighbours_take_two_edits() {
    assert_eq!(levenshtein_distance(b"discord", b"dicsord"), 2);
    assert_eq!(levenshtein_distance(b"ab", b"ba"), 2);
}

#[test]
fn distance_between_empty_sequences_is_zero() {
    assert_eq!(levenshtein_distance::<u8>(b"", b""), 0);
}

#[test]
fn distance_to_empty_is_the_length() {
    assert_eq!(levenshtein_distance(b"", b"abc"), 3);
    assert_eq!(levenshtein_distance(b"abc", b""), 3);
    assert_eq!(levenshtein_distance(b"a", b""), 1);
    assert_eq!(levenshtein_distance(b"", b"discord.com"), 11);
}

#[test]
fn distance_is_not_capped_by_the_shorter_length() {
    assert_eq!(levenshtein_distance(b"aaaa", b"b"), 4);
    assert_eq!(levenshtein_distance(b"b", b"aaaa"), 4);
    assert_eq!(levenshtein_distance(b"abc", b"www.reddit.com"), 13);
    assert_eq!(levenshtein_distance(b"t.co", b"discord.com"), 8);
}

#[test]
fn distance_to_self_is_zero() {
    assert_eq!(levenshtein_distance(b"discord.com", b"discord.com"), 0);
    assert_eq!(levenshtein_distance(b"a", b"a"), 0);
    assert_eq!(levenshtein_distance(&[7, 7, 7], &[7, 7, 7]), 0);
}

#[test]
fn distance_is_zero_only_for_equal_sequences() {
    assert_ne!(levenshtein_distance(b"discord.com", b"discord.con"), 0);
    assert_ne!(levenshtein_distance(b"discord.com", b"discord.co"), 0);
    assert_ne!(levenshtein_distance(b"Discord.com", b"discord.com"), 0);
}

#[test]
fn single_edits_are_at_distance_one() {
    assert_eq!(levenshtein_distance(b"discord", b"discords"), 1);
    assert_eq!(levenshtein_distance(b"discord", b"xdiscord"), 1);
    assert_eq!(levenshtein_distance(b"discord", b"disscord"), 1);
    assert_eq!(levenshtein_distance(b"discord", b"iscord"), 1);
    assert_eq!(levenshtein_distance(b"discord", b"discor"), 1);
    assert_eq!(levenshtein_distance(b"discord", b"dizcord"), 1);
}

#[test]
fn well_known_distances() {
    assert_eq!(levenshtein_distance(b"flaw", b"lawn"), 2);
    assert_eq!(levenshtein_distance(b"saturday", b"sunday"), 3);
    assert_eq!(levenshtein_distance(b"intention", b"execution"), 5);
    assert_eq!(levenshtein_distance(b"abc", b"xyz"), 3);
    assert_eq!(levenshtein_distance(b"discord.com", b"discord.gift"), 4);
}

#[test]
fn distance_is_symmetric() {
    let words: [&[u8]; 6] = [b"", b"kitten", b"sitting", b"discord.com", b"dizcord.com", b"www.reddit.com"];
    for a in words {
        for b in words {
            assert_eq!(levenshtein_distance(a, b), levenshtein_distance(b, a));
        }
    }
}

#[test]
fn distance_obeys_the_triangle_inequality() {
    assert_eq!(levenshtein_distance(b"kitten", b"sitten"), 1);
    assert_eq!(levenshtein_distance(b"sitten", b"sitting"), 2);
    let words: [&[u8]; 6] = [b"", b"kitten", b"sitten", b"sitting", b"discord", b"dicsord"];
    for a in words {
        for b in words {
            for c in words {
                assert!(
                    levenshtein_distance(a, c)
                        <= levenshtein_distance(a, b) + levenshtein_distance(b, c)
                );
            }
        }
    }
}

#[test]
fn distance_lies_between_the_length_difference_and_the_longer_length() {
    let words: [&[u8]; 5] = [b"", b"a", b"kitten", b"www.youtube.com", b"zzzzzzzzzzzzzzzzzzzz"];
    for a in words {
        for b in words {
            let d = levenshtein_distance(a, b);
            assert!(d <= a.len().max(b.len()));
            assert!(d >= a.len().max(b.len()) - a.len().min(b.len()));
        }
    }
    assert_eq!(levenshtein_distance(b"kitten", b"zzzzzzzzzzzzzzzzzzzz"), 20);
}

#[test]
fn distance_counts_elements_of_any_type() {
    assert_eq!(levenshtein_distance(&['a', 'b'], &['b', 'a']), 2);
    assert_eq!(levenshtein_distance(&["x", "y"], &["x"]), 1);
    assert_eq!(levenshtein_distance(&[1i32, 2, 3, 4], &[1, 3, 4, 5]), 2);
    assert_eq!(levenshtein_distance(&['ö'], &['o']), 1);
    assert_eq!(levenshtein_distance("ö".as_bytes(), "o".as_bytes()), 2);
}
