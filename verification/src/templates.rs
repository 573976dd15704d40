//! The frame of the pages that the application serves.

use vstd::prelude::*;

verus! {

/// The page up to what a page adds to its head.
pub const TOP: &'static str = r##"
        <!DOCTYPE html>
        <!--[if lt IE 7]>      <html class="no-js lt-ie9 lt-ie8 lt-ie7"> <![endif]-->
        <!--[if IE 7]>         <html class="no-js lt-ie9 lt-ie8"> <![endif]-->
        <!--[if IE 8]>         <html class="no-js lt-ie9"> <![endif]-->
        <!--[if gt IE 8]>      <html class="no-js"> <!--<![endif]-->
        <html>
            <head>
                <meta charset="utf-8">
                <meta http-equiv="X-UA-Compatible" content="IE=edge">
                <title>{{title}}</title>
                <meta name="description" content="">
                <meta name="viewport" content="width=device-width, initial-scale=1">
                <link rel="preconnect" href="https://fonts.gstatic.com" crossorigin>                
                <link rel="preload" as="style" href="https://fonts.googleapis.com/css2?family=Dosis:wght@200;400;600&family=Special+Elite&display=swap">
                <link rel="stylesheet" href="https://fonts.googleapis.com/css2?family=Dosis:wght@200;400;600&family=Special+Elite&display=swap" media="print" onload="this.media='all'">
                <link rel="stylesheet" href="/static/css/base.css">
                <script src="/static/js/client.js"></script>
        "##;

/// From the end of the head to the content of the body.
pub const BODY_TOP: &'static str = r##"
            </head>
            <body>
                <!--[if lt IE 7]>
                    <p class="browsehappy">You are using an <strong>outdated</strong> browser. Please <a href="#">upgrade your browser</a> to improve your experience.</p>
                <![endif]-->
        
                <div class="container">
        "##;

/// From the content of the body to the script that runs once the page is
/// loaded.
pub const BODY_BOTTOM: &'static str = r##"
                </div>
                <script type="text/javascript">
                    window.onload = async () => {
        "##;

/// The end of the page.
pub const BOTTOM: &'static str = r##"
                    };
                </script>
            </body>
            </html>
        "##;

/// A page: the frame around what goes in its head, in its body, and in the
/// script that runs once it is loaded.
pub open spec fn spec_wrap_in_html(head: Seq<char>, body: Seq<char>, script: Seq<char>) -> Seq<
    char,
> {
    TOP@ + head + BODY_TOP@ + body + BODY_BOTTOM@ + script + BOTTOM@
}

/// Puts the frame of a page around what goes in its head, in its body, and
/// in the script that runs once it is loaded.
pub fn wrap_in_html(head_content: &str, body_content: &str, script_content: &str) -> (r: String)
    ensures
        r@ == spec_wrap_in_html(head_content@, body_content@, script_content@),
{
    let mut r = TOP.to_owned();
    r.append(head_content);
    r.append(BODY_TOP);
    r.append(body_content);
    r.append(BODY_BOTTOM);
    r.append(script_content);
    r.append(BOTTOM);
    r
}

} // verus!
