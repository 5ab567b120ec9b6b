//! Pages of the path-based navigation: `/`, `/login`, `/{session}/`,
//! `/{session}/{year}/` and `/{session}/{year}/leaderboard`.

use vstd::prelude::*;

use crate::cgi::{plain, Response, ResponseCode};
use crate::text::{pieces_on, split_on, texts};

verus! {

/// The `n`-th segment of a path split at `/`.
pub open spec fn segment(path: Seq<char>, n: int) -> Seq<char> {
    pieces_on(path, '/')[n]
}

pub open spec fn login_text() -> Seq<char> {
    "
# Advent Of Code Leaderboard

Here you will be able to view a more advanced leaderboard than the one provided by advent of code. 

## You need to provide a session key

In order to use this page, you will need to provide your session key from

=> https://adventofcode.com adventofcode.com

The easiest way to access your session key would be to go to adventofcode.com, press F12 to access the inspector, navigate to the 'storage' tab, 'cookies', and copy the value for the 'session' cookie.

Once you have your cookie, you may log in using the link below.

=> login Enter your session key

"@
}

pub open spec fn leaderboard_text(year: Seq<char>) -> Seq<char> {
    "
# Advent Of Code Leaderboard

Here you will be able to view a more advanced leaderboard than the one provided by advent of code. 

## You need to provide a leaderboard id

In order to use this capsule, you will need to provide the leaderboard id that you would like to view.

You can get the leaderboard id by going to the official leaderboard. In the url, the last segment is the id:

```example
https://adventofcode.com/"@ + year + "/leaderboard/private/view/123456
                                                       ^^^^^^
```

=> https://adventofcode.com/"@ + year + "/leaderboard/private View a list of your leaderboards on adventofcode.com


Once you have your cookie, you may log in using the link below.

=> leaderboard Enter your leaderboard id

"@
}

/// `/`: how to log in.
pub fn login() -> (r: Response)
    ensures
        r.code == ResponseCode::Success,
        r.meta@ == "text/gemini"@,
        r.body.is_some() && r.body.unwrap()@ == login_text(),
{
    let text = "
# Advent Of Code Leaderboard

Here you will be able to view a more advanced leaderboard than the one provided by advent of code. 

## You need to provide a session key

In order to use this page, you will need to provide your session key from

=> https://adventofcode.com adventofcode.com

The easiest way to access your session key would be to go to adventofcode.com, press F12 to access the inspector, navigate to the 'storage' tab, 'cookies', and copy the value for the 'session' cookie.

Once you have your cookie, you may log in using the link below.

=> login Enter your session key

";
    proof {
        reveal_strlit("text/gemini");
    }
    Response::success("text/gemini", text)
}

/// `/login`: asks for the session key, then goes to its page.
pub fn login_request(session: &str, script: &str) -> (r: Response)
    ensures
        session@.len() == 0 ==> plain(r, ResponseCode::Input, "Paste your session key here"@),
        session@.len() > 0 ==> plain(r, ResponseCode::Redirect, script@ + "/"@ + session@ + "/"@),
{
    if session.unicode_len() == 0 {
        return Response::input("Paste your session key here");
    }
    let dest = String::from_str(script).concat("/").concat(session).concat("/");
    proof {
        reveal_strlit("/");
    }
    Response::redirect(dest.as_str())
}

/// `/{session}/`: asks for the year, then goes to its page.
pub fn year_select(year: &str, script: &str, path: &str) -> (r: Response)
    requires
        pieces_on(path@, '/').len() > 1,
    ensures
        year@.len() == 0 ==> plain(r, ResponseCode::Input, "Which year would you like to view"@),
        year@.len() > 0 ==> plain(
            r,
            ResponseCode::Redirect,
            script@ + "/"@ + segment(path@, 1) + "/"@ + year@ + "/"@,
        ),
{
    if year.unicode_len() == 0 {
        return Response::input("Which year would you like to view");
    }
    let segments = split_on(path, '/');
    assert(segments@[1]@ == texts(segments@)[1]);
    let dest = String::from_str(script).concat("/").concat(segments[1].as_str()).concat("/").concat(
        year,
    ).concat("/");
    proof {
        reveal_strlit("/");
    }
    Response::redirect(dest.as_str())
}

/// `/{session}/{year}/`: how to find a leaderboard id.
pub fn leaderboard(path: &str) -> (r: Response)
    requires
        pieces_on(path@, '/').len() > 2,
    ensures
        r.code == ResponseCode::Success,
        r.meta@ == "text/gemini"@,
        r.body.is_some() && r.body.unwrap()@ == leaderboard_text(segment(path@, 2)),
{
    let segments = split_on(path, '/');
    assert(segments@[2]@ == texts(segments@)[2]);
    let year = segments[2].as_str();
    let head = "
# Advent Of Code Leaderboard

Here you will be able to view a more advanced leaderboard than the one provided by advent of code. 

## You need to provide a leaderboard id

In order to use this capsule, you will need to provide the leaderboard id that you would like to view.

You can get the leaderboard id by going to the official leaderboard. In the url, the last segment is the id:

```example
https://adventofcode.com/";
    let middle = "/leaderboard/private/view/123456
                                                       ^^^^^^
```

=> https://adventofcode.com/";
    let tail = "/leaderboard/private View a list of your leaderboards on adventofcode.com


Once you have your cookie, you may log in using the link below.

=> leaderboard Enter your leaderboard id

";
    let body = String::from_str(head).concat(year).concat(middle).concat(year).concat(tail);
    proof {
        reveal_strlit("text/gemini");
    }
    Response::success("text/gemini", body.as_str())
}

/// `/{session}/{year}/leaderboard`: asks for the leaderboard id, then goes to
/// its page.
pub fn leaderboard_select(leaderboard: &str, script: &str, path: &str) -> (r: Response)
    requires
        pieces_on(path@, '/').len() > 2,
    ensures
        leaderboard@.len() == 0 ==> plain(
            r,
            ResponseCode::Input,
            "Paste the leaderboard id you would like to view"@,
        ),
        leaderboard@.len() > 0 ==> plain(
            r,
            ResponseCode::Redirect,
            script@ + "/"@ + segment(path@, 1) + "/"@ + segment(path@, 2) + "/"@ + leaderboard@ + "/"@,
        ),
{
    if leaderboard.unicode_len() == 0 {
        return Response::input("Paste the leaderboard id you would like to view");
    }
    let segments = split_on(path, '/');
    assert(segments@[1]@ == texts(segments@)[1]);
    assert(segments@[2]@ == texts(segments@)[2]);
    let dest = String::from_str(script).concat("/").concat(segments[1].as_str()).concat("/").concat(
        segments[2].as_str(),
    ).concat("/").concat(leaderboard).concat("/");
    proof {
        reveal_strlit("/");
    }
    Response::redirect(dest.as_str())
}

} // verus!
