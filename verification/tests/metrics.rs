use wcrust::{Opt, WhatToCount};

fn opt(lines: bool, words: bool, chars: bool, bytes: bool) -> Opt {
    Opt { bytes, chars, lines, words, directories: false, files: Vec::new() }
}

#[test]
fn from_args_copies_the_flags() {
    let wtc = WhatToCount::from_args(&opt(false, true, false, true));
    assert_eq!(wtc, WhatToCount { lines: false, words: true, chars: false, bytes: true });
    let wtc = WhatToCount::from_args(&opt(false, false, false, false));
    assert_eq!(wtc, WhatToCount { lines: false, words: false, chars: false, bytes: false });
}

#[test]
fn empty_selection_resolves_to_the_default() {
    let none = WhatToCount { lines: false, words: false, chars: false, bytes: false };
    assert_eq!(none.resolve(), WhatToCount::default());
    assert_eq!(
        none.resolve(),
        WhatToCount { lines: true, words: true, chars: true, bytes: false }
    );
}

#[test]
fn a_selection_resolves_to_itself() {
    let flags = [false, true];
    for lines in flags {
        for words in flags {
            for chars in flags {
                for bytes in flags {
                    let wtc = WhatToCount { lines, words, chars, bytes };
                    if lines || words || chars || bytes {
                        assert_eq!(wtc.resolve(), wtc);
                    }
                    let resolved = wtc.resolve();
                    assert!(resolved.lines || resolved.words || resolved.chars || resolved.bytes);
                }
            }
        }
    }
}

#[test]
fn bytes_only_stays_bytes_only() {
    let wtc = WhatToCount::from_args(&opt(false, false, false, true)).resolve();
    assert_eq!(wtc, WhatToCount { lines: false, words: false, chars: false, bytes: true });
}
