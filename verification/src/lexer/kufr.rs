use vstd::prelude::*;

verus! {

/// The single characters that a Nazm source may not hold.
pub open spec fn kufr_single(c: char) -> bool {
    c == '\u{03EE}' || c == '\u{03EF}' || c == '\u{058d}' || c == '\u{058e}' || c == '\u{05EF}'
        || c == '\u{07D9}' || c == '\u{093B}' || c == '\u{13D0}' || c == '\u{16BE}' || c
        == '\u{165C}' || c == '\u{16ED}' || c == '\u{17D2}' || c == '\u{1D7B}' || c == '\u{2020}'
        || c == '\u{2021}' || c == '\u{256A}' || c == '\u{256B}' || c == '\u{256C}' || c
        == '\u{2616}' || c == '\u{2617}' || c == '\u{269C}' || c == '\u{269E}' || c == '\u{269F}'
        || c == '\u{26AF}' || c == '\u{26B0}' || c == '\u{26B1}' || c == '\u{26F3}' || c
        == '\u{26F9}' || c == '\u{26FB}' || c == '\u{26FF}' || c == '\u{27CA}' || c == '\u{29FE}'
        || c == '\u{2CFE}'
}

/// The ranges of characters (both ends included) that a Nazm source may not hold.
pub open spec fn kufr_range(c: char) -> bool {
    ('\u{0900}' <= c && c <= '\u{109F}') || ('\u{1100}' <= c && c <= '\u{1C7F}') || ('\u{253C}'
        <= c && c <= '\u{254B}') || ('\u{2624}' <= c && c <= '\u{2638}') || ('\u{263D}' <= c && c
        <= '\u{2653}') || ('\u{2654}' <= c && c <= '\u{2667}') || ('\u{2669}' <= c && c
        <= '\u{2671}') || ('\u{2680}' <= c && c <= '\u{268F}') || ('\u{26A2}' <= c && c
        <= '\u{26A9}') || ('\u{26B3}' <= c && c <= '\u{26BC}') || ('\u{26BF}' <= c && c
        <= '\u{26EC}') || ('\u{2719}' <= c && c <= '\u{2725}') || ('\u{2BF0}' <= c && c
        <= '\u{2C5F}') || ('\u{2D80}' <= c && c <= '\u{AB2F}') || ('\u{AB70}' <= c && c
        <= '\u{FAFF}')
}

/// A kufr symbol or a character of an unsupported script.
pub open spec fn kufr_or_unsupported(c: char) -> bool {
    kufr_single(c) || kufr_range(c)
}

pub fn is_kufr_or_unsupported_character(c: char) -> (r: bool)
    ensures
        r == kufr_or_unsupported(c),
{
    let chars: [char; 33] = [
        '\u{03EE}',
        '\u{03EF}',
        '\u{058d}',
        '\u{058e}',
        '\u{05EF}',  // yod triangle
        '\u{07D9}',
        '\u{093B}',
        '\u{13D0}',
        '\u{16BE}',
        '\u{165C}',
        '\u{16ED}',
        '\u{17D2}',
        '\u{1D7B}',
        '\u{2020}',
        '\u{2021}',
        '\u{256A}',
        '\u{256B}',
        '\u{256C}',
        '\u{2616}',
        '\u{2617}',
        '\u{269C}',
        '\u{269E}',
        '\u{269F}',
        '\u{26AF}',
        '\u{26B0}',
        '\u{26B1}',
        '\u{26F3}',
        '\u{26F9}',
        '\u{26FB}',
        '\u{26FF}',
        '\u{27CA}',
        '\u{29FE}',
        '\u{2CFE}',
    ];
    let mut i: usize = 0;
    while i < 33
        invariant
            0 <= i <= 33,
            chars@ == seq![
                '\u{03EE}', '\u{03EF}', '\u{058d}', '\u{058e}', '\u{05EF}', '\u{07D9}', '\u{093B}',
                '\u{13D0}', '\u{16BE}', '\u{165C}', '\u{16ED}', '\u{17D2}', '\u{1D7B}', '\u{2020}',
                '\u{2021}', '\u{256A}', '\u{256B}', '\u{256C}', '\u{2616}', '\u{2617}', '\u{269C}',
                '\u{269E}', '\u{269F}', '\u{26AF}', '\u{26B0}', '\u{26B1}', '\u{26F3}', '\u{26F9}',
                '\u{26FB}', '\u{26FF}', '\u{27CA}', '\u{29FE}', '\u{2CFE}',
            ],
            forall|k: int| 0 <= k < i ==> chars@[k] != c,
        decreases 33 - i,
    {
        if chars[i] == c {
            return true;
        }
        i = i + 1;
    }
    proof {
        if kufr_single(c) {
            assert(exists|k: int| 0 <= k < 33 && chars@[k] == c) by {
                if c == '\u{03EE}' { assert(chars@[0] == c); }
                else if c == '\u{03EF}' { assert(chars@[1] == c); }
                else if c == '\u{058d}' { assert(chars@[2] == c); }
                else if c == '\u{058e}' { assert(chars@[3] == c); }
                else if c == '\u{05EF}' { assert(chars@[4] == c); }
                else if c == '\u{07D9}' { assert(chars@[5] == c); }
                else if c == '\u{093B}' { assert(chars@[6] == c); }
                else if c == '\u{13D0}' { assert(chars@[7] == c); }
                else if c == '\u{16BE}' { assert(chars@[8] == c); }
                else if c == '\u{165C}' { assert(chars@[9] == c); }
                else if c == '\u{16ED}' { assert(chars@[10] == c); }
                else if c == '\u{17D2}' { assert(chars@[11] == c); }
                else if c == '\u{1D7B}' { assert(chars@[12] == c); }
                else if c == '\u{2020}' { assert(chars@[13] == c); }
                else if c == '\u{2021}' { assert(chars@[14] == c); }
                else if c == '\u{256A}' { assert(chars@[15] == c); }
                else if c == '\u{256B}' { assert(chars@[16] == c); }
                else if c == '\u{256C}' { assert(chars@[17] == c); }
                else if c == '\u{2616}' { assert(chars@[18] == c); }
                else if c == '\u{2617}' { assert(chars@[19] == c); }
                else if c == '\u{269C}' { assert(chars@[20] == c); }
                else if c == '\u{269E}' { assert(chars@[21] == c); }
                else if c == '\u{269F}' { assert(chars@[22] == c); }
                else if c == '\u{26AF}' { assert(chars@[23] == c); }
                else if c == '\u{26B0}' { assert(chars@[24] == c); }
                else if c == '\u{26B1}' { assert(chars@[25] == c); }
                else if c == '\u{26F3}' { assert(chars@[26] == c); }
                else if c == '\u{26F9}' { assert(chars@[27] == c); }
                else if c == '\u{26FB}' { assert(chars@[28] == c); }
                else if c == '\u{26FF}' { assert(chars@[29] == c); }
                else if c == '\u{27CA}' { assert(chars@[30] == c); }
                else if c == '\u{29FE}' { assert(chars@[31] == c); }
                else { assert(chars@[32] == c); }
            }
        }
    }
    let ranges: [(char, char); 16] = [
        /*  from  ,    to  */
        ('\u{0900}', '\u{109F}'),  //HinduEurope
        ('\u{1100}', '\u{1C7F}'),  //HinduEurope
        ('\u{253C}', '\u{254B}'),
        ('\u{2624}', '\u{2638}'),  //Kufr
        ('\u{263D}', '\u{2653}'),  //Kufr
        ('\u{2654}', '\u{2667}'),
        ('\u{2669}', '\u{2671}'),  //Music and kufr crosses
        ('\u{2680}', '\u{268F}'),
        ('\u{2680}', '\u{268F}'),
        ('\u{26A2}', '\u{26A9}'),  // Pride
        ('\u{26B3}', '\u{26BC}'),  // Kufr
        ('\u{26BF}', '\u{26EC}'),
        ('\u{2719}', '\u{2725}'),  // Kufr crosses
        ('\u{2BF0}', '\u{2C5F}'),  // Includes astrology
        ('\u{2D80}', '\u{AB2F}'),
        ('\u{AB70}', '\u{FAFF}'),
    ];
    let ghost rs: Seq<(char, char)> = seq![
        ('\u{0900}', '\u{109F}'),
        ('\u{1100}', '\u{1C7F}'),
        ('\u{253C}', '\u{254B}'),
        ('\u{2624}', '\u{2638}'),
        ('\u{263D}', '\u{2653}'),
        ('\u{2654}', '\u{2667}'),
        ('\u{2669}', '\u{2671}'),
        ('\u{2680}', '\u{268F}'),
        ('\u{2680}', '\u{268F}'),
        ('\u{26A2}', '\u{26A9}'),
        ('\u{26B3}', '\u{26BC}'),
        ('\u{26BF}', '\u{26EC}'),
        ('\u{2719}', '\u{2725}'),
        ('\u{2BF0}', '\u{2C5F}'),
        ('\u{2D80}', '\u{AB2F}'),
        ('\u{AB70}', '\u{FAFF}'),
    ];
    assert(ranges@ == rs);
    assert forall|k: int| 0 <= k < 16 && rs[k].0 <= c && c <= #[trigger] rs[k].1 implies kufr_range(
        c,
    ) by {
        if k == 0 {} else if k == 1 {} else if k == 2 {} else if k == 3 {} else if k == 4 {}
        else if k == 5 {} else if k == 6 {} else if k == 7 {} else if k == 8 {} else if k == 9 {}
        else if k == 10 {} else if k == 11 {} else if k == 12 {} else if k == 13 {}
        else if k == 14 {} else {}
    }
    let mut j: usize = 0;
    while j < 16
        invariant
            0 <= j <= 16,
            ranges@ == rs,
            !kufr_single(c),
            forall|k: int| 0 <= k < 16 && rs[k].0 <= c && c <= #[trigger] rs[k].1 ==> kufr_range(c),
            forall|k: int| 0 <= k < j ==> !(rs[k].0 <= c && c <= #[trigger] rs[k].1),
        decreases 16 - j,
    {
        let (r1, r2) = ranges[j];
        if c >= r1 && c <= r2 {
            return true;
        }
        j = j + 1;
    }
    proof {
        assert(!(rs[0].0 <= c && c <= rs[0].1));
        assert(!(rs[1].0 <= c && c <= rs[1].1));
        assert(!(rs[2].0 <= c && c <= rs[2].1));
        assert(!(rs[3].0 <= c && c <= rs[3].1));
        assert(!(rs[4].0 <= c && c <= rs[4].1));
        assert(!(rs[5].0 <= c && c <= rs[5].1));
        assert(!(rs[6].0 <= c && c <= rs[6].1));
        assert(!(rs[7].0 <= c && c <= rs[7].1));
        assert(!(rs[9].0 <= c && c <= rs[9].1));
        assert(!(rs[10].0 <= c && c <= rs[10].1));
        assert(!(rs[11].0 <= c && c <= rs[11].1));
        assert(!(rs[12].0 <= c && c <= rs[12].1));
        assert(!(rs[13].0 <= c && c <= rs[13].1));
        assert(!(rs[14].0 <= c && c <= rs[14].1));
        assert(!(rs[15].0 <= c && c <= rs[15].1));
    }
    false
}

} // verus!
