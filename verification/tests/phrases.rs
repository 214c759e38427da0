use palindrome::{is_palindrome, is_palindrome_classic};

fn test_is_palindrome_base<F>(is_palindrome: F)
where
    F: Fn(&str) -> bool,
{
    assert!(is_palindrome(""));
    assert!(is_palindrome("a"));
    assert!(is_palindrome(".,,/.,/.,././.,=-=--"));
    assert!(is_palindrome("a,,,,,,,,,,,,,,,a"));
    assert!(is_palindrome("a,,,,,bb,,,,,,,,a"));
    assert!(is_palindrome("race car"));
    assert!(is_palindrome("racecar"));
    assert!(is_palindrome("raccar"));
    assert!(is_palindrome("A man, a plan, a canal, Panama!"));
    assert!(is_palindrome("Amor, Roma"));
    assert!(is_palindrome("stack cats"));
    assert!(is_palindrome("step on no pets"));
    assert!(is_palindrome("taco cat"));
    assert!(is_palindrome("put it up"));
    assert!(is_palindrome("Was it a car or a cat I saw?"));
    assert!(is_palindrome("No ‘x’ in Nixon"));

    // negative for good measure
    assert!(!is_palindrome("Not a palindrome"))
}

#[test]
fn test_is_palindrome() {
    test_is_palindrome_base(is_palindrome);
}

#[test]
fn test_palindrome_classic() {
    test_is_palindrome_base(is_palindrome_classic);
}

#[test]
fn plain_apostrophes_are_passed_over() {
    assert!(is_palindrome("No 'x' in Nixon"));
    assert!(is_palindrome_classic("No 'x' in Nixon"));
}

#[test]
fn nothing_to_compare_is_a_palindrome() {
    for phrase in ["", " ", "1", "12", "?!", "2024-10-28", "💝"] {
        assert!(is_palindrome(phrase), "{phrase:?}");
        assert!(is_palindrome_classic(phrase), "{phrase:?}");
    }
}

#[test]
fn one_letter_is_a_palindrome() {
    for phrase in ["a", "Z", " a", "a ", "..q..", "é", "京"] {
        assert!(is_palindrome(phrase), "{phrase:?}");
        assert!(is_palindrome_classic(phrase), "{phrase:?}");
    }
}

#[test]
fn two_letters_are_compared() {
    for (phrase, expected) in [
        ("aa", true),
        ("ab", false),
        ("aA", true),
        ("Aa", true),
        ("a-b", false),
        ("-a-a-", true),
        ("--a--b", false),
        ("a--b--", false),
    ] {
        assert_eq!(is_palindrome(phrase), expected, "{phrase:?}");
        assert_eq!(is_palindrome_classic(phrase), expected, "{phrase:?}");
    }
}

#[test]
fn odd_and_even_letter_counts() {
    for (phrase, expected) in [
        ("aba", true),
        ("abc", false),
        ("abba", true),
        ("abca", false),
        ("abcba", true),
        ("abcda", false),
        ("abccba", true),
        ("abcdba", false),
    ] {
        assert_eq!(is_palindrome(phrase), expected, "{phrase:?}");
        assert_eq!(is_palindrome_classic(phrase), expected, "{phrase:?}");
    }
}

#[test]
fn a_mismatch_near_the_middle_is_found() {
    assert!(!is_palindrome("abcdefg_x_hfedcba"));
    assert!(!is_palindrome_classic("abcdefg_x_hfedcba"));
    assert!(is_palindrome("abcdefg_x_gfedcba"));
    assert!(is_palindrome_classic("abcdefg_x_gfedcba"));
}

#[test]
fn runs_of_non_letters_at_one_end() {
    for (phrase, expected) in [
        ("......ab.b", false),
        ("......aba", true),
        ("aba......", true),
        ("ab.b......", false),
        ("a......", true),
        ("......a", true),
        ("a......b", false),
        ("a.b.a......", true),
        ("......a.b.a", true),
    ] {
        assert_eq!(is_palindrome(phrase), expected, "{phrase:?}");
        assert_eq!(is_palindrome_classic(phrase), expected, "{phrase:?}");
    }
}

#[test]
fn digits_are_not_letters() {
    assert!(is_palindrome("1a2"));
    assert!(is_palindrome_classic("1a2"));
    assert!(is_palindrome("ab1ba2"));
    assert!(is_palindrome_classic("ab1ba2"));
    assert!(!is_palindrome("1ab2"));
    assert!(!is_palindrome_classic("1ab2"));
}

#[test]
fn letters_of_any_script_count() {
    assert!(is_palindrome("été"));
    assert!(is_palindrome_classic("été"));
    assert!(!is_palindrome("étè"));
    assert!(!is_palindrome_classic("étè"));
    assert!(is_palindrome("京a京"));
    assert!(is_palindrome_classic("京a京"));
    assert!(!is_palindrome("京a都"));
    assert!(!is_palindrome_classic("京a都"));
    assert!(is_palindrome("a💝b💝a"));
    assert!(is_palindrome_classic("a💝b💝a"));
}

#[test]
fn only_ascii_case_is_set_aside() {
    assert!(is_palindrome("Ab, bA"));
    assert!(is_palindrome_classic("Ab, bA"));
    assert!(is_palindrome("éé"));
    assert!(is_palindrome_classic("éé"));
    assert!(!is_palindrome("Éé"));
    assert!(!is_palindrome_classic("Éé"));
}

#[test]
fn the_same_phrase_gets_the_same_verdict() {
    for phrase in ["", "a", "Amor, Roma", "Not a palindrome", "été", "..."] {
        let first = is_palindrome(phrase);
        let owned = String::from(phrase);
        assert_eq!(is_palindrome(phrase), first);
        assert_eq!(is_palindrome(&owned), first);
        let first = is_palindrome_classic(phrase);
        assert_eq!(is_palindrome_classic(phrase), first);
        assert_eq!(is_palindrome_classic(&owned), first);
    }
}

#[test]
fn both_strategies_agree() {
    let alphabet = ['a', 'A', 'b', '.', ' ', 'é'];
    let mut phrases: Vec<String> = vec![String::new()];
    let mut start = 0;
    for _ in 0..5 {
        let end = phrases.len();
        for i in start..end {
            for c in alphabet {
                let mut longer = phrases[i].clone();
                longer.push(c);
                phrases.push(longer);
            }
        }
        start = end;
    }
    assert_eq!(phrases.len(), 1 + 6 + 36 + 216 + 1296 + 7776);
    let mut palindromes = 0;
    for phrase in &phrases {
        let verdict = is_palindrome(phrase);
        assert_eq!(verdict, is_palindrome_classic(phrase), "{phrase:?}");
        if verdict {
            palindromes += 1;
        }
    }
    assert!(palindromes > 0);
    assert!(palindromes < phrases.len());
}

#[test]
fn changing_ascii_case_changes_nothing() {
    for phrase in [
        "A man, a plan, a canal, Panama!",
        "Not a palindrome",
        "Was it a car or a cat I saw?",
        "abcB a",
        "",
    ] {
        let upper = phrase.to_ascii_uppercase();
        let lower = phrase.to_ascii_lowercase();
        let toggled: String = phrase
            .chars()
            .map(|c| if c.is_ascii_lowercase() { c.to_ascii_uppercase() } else { c.to_ascii_lowercase() })
            .collect();
        for variant in [&upper, &lower, &toggled] {
            assert_eq!(is_palindrome(variant), is_palindrome(phrase), "{variant:?}");
            assert_eq!(is_palindrome_classic(variant), is_palindrome_classic(phrase), "{variant:?}");
        }
    }
}

#[test]
fn putting_in_non_letters_changes_nothing() {
    for phrase in ["racecar", "Amor, Roma", "Not a palindrome", "ab", "a", ""] {
        let chars: Vec<char> = phrase.chars().collect();
        for at in 0..=chars.len() {
            for filler in [' ', ',', '7', '💝'] {
                let mut longer = chars.clone();
                longer.insert(at, filler);
                let longer: String = longer.into_iter().collect();
                assert_eq!(is_palindrome(&longer), is_palindrome(phrase), "{longer:?}");
                assert_eq!(is_palindrome_classic(&longer), is_palindrome_classic(phrase), "{longer:?}");
            }
        }
    }
}

#[test]
fn taking_out_non_letters_changes_nothing() {
    for phrase in ["A man, a plan, a canal, Panama!", "No 'x' in Nixon", "Not a palindrome", "a, b"] {
        let stripped: String = phrase.chars().filter(|c| c.is_alphabetic()).collect();
        assert_eq!(is_palindrome(&stripped), is_palindrome(phrase));
        assert_eq!(is_palindrome_classic(&stripped), is_palindrome_classic(phrase));
    }
    assert!(is_palindrome("AmanaplanacanalPanama"));
    assert!(!is_palindrome("Notapalindrome"));
}
