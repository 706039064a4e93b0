use vstd::prelude::*;

verus! {

pub fn spinner_frames() -> (f: [&'static str; 4])
    ensures
        f@ == seq!["[=   ]", "[==  ]", "[=== ]", "[====]"],
{
    ["[=   ]", "[==  ]", "[=== ]", "[====]"]
}

pub fn pulse_frames() -> (f: [&'static str; 4])
    ensures
        f@ == seq!["#", "=", "-", "."],
{
    ["#", "=", "-", "."]
}

pub fn slot_reel_frames() -> (f: [&'static str; 12])
    ensures
        f@ == seq![
            "[>         ]",
            "[>>        ]",
            "[ >>>      ]",
            "[  >>>>    ]",
            "[   >>>>>  ]",
            "[    >>>>>>]",
            "[   <<<<<< ]",
            "[  <<<<<   ]",
            "[ <<<<     ]",
            "[<<<       ]",
            "[<<        ]",
            "[<         ]",
        ],
{
    [
        "[>         ]",
        "[>>        ]",
        "[ >>>      ]",
        "[  >>>>    ]",
        "[   >>>>>  ]",
        "[    >>>>>>]",
        "[   <<<<<< ]",
        "[  <<<<<   ]",
        "[ <<<<     ]",
        "[<<<       ]",
        "[<<        ]",
        "[<         ]",
    ]
}

} // verus!
