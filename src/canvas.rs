//! The state of the live canvas that the gateway shows.

use vstd::prelude::*;
use vstd::string::*;

verus! {

/// What the live canvas shows: its HTML and optional extra CSS.
#[derive(Debug, Clone)]
pub struct CanvasState {
    /// The HTML content of the canvas.
    pub html: String,
    /// Optional CSS to inject for custom styling.
    pub css: Option<String>,
}

impl Default for CanvasState {
    fn default() -> (r: Self)
        ensures
            r.css is None,
    {
        CanvasState {
            html: String::from_str("<div style=\"display:flex;flex-direction:column;align-items:center;justify-content:center;height:100vh;font-family:sans-serif;\">\n  <h1 style=\"color:#fff;font-size:3rem;margin-bottom:1rem;\">ZeroClaw 🦀</h1>\n  <p style=\"color:#aaa;font-size:1.2rem;\">Live Canvas Active & Ready</p>\n</div>"),
            css: None,
        }
    }
}

impl CanvasState {
    /// Replace the whole state.
    pub fn set(&mut self, html: String, css: Option<String>)
        ensures
            final(self).html == html,
            final(self).css == css,
    {
        self.html = html;
        self.css = css;
    }

    /// Append `html` to what the canvas shows; the CSS is kept.
    pub fn append_html(&mut self, html: &str)
        ensures
            final(self).html@ == old(self).html@ + html@,
            final(self).css == old(self).css,
    {
        self.html.append(html);
    }
}

} // verus!
