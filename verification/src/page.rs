//! The fixed parts of the page of details.
use vstd::prelude::*;

verus! {

/// The page up to the plan: its head, its style and its title.
pub const PAGE_START: &'static str = r#"<!doctype html>
<html lang="en">
<head>
<meta charset="utf-8">
<meta name="viewport" content="width=device-width, initial-scale=1">
<title>Codex Usage</title>
<style>
:root {
  color-scheme: dark;
  --bg: #090d12;
  --panel: #111820;
  --panel-soft: #0d131a;
  --line: #202b36;
  --line-soft: #18222d;
  --text: #eef4fb;
  --muted: #8ea0b2;
  --quiet: #627284;
  --green: #35c46a;
  --amber: #e5b454;
  --red: #e35d5d;
  --blue: #6aa8ff;
  --violet: #aa7cff;
}
* { box-sizing: border-box; }
body {
  margin: 0;
  min-height: 100dvh;
  background:
    radial-gradient(circle at 15% 0%, rgba(106, 168, 255, 0.13), transparent 34rem),
    radial-gradient(circle at 85% 8%, rgba(170, 124, 255, 0.11), transparent 30rem),
    linear-gradient(180deg, #0b1016 0%, var(--bg) 48%, #070a0f 100%);
  color: var(--text);
  font: 14px/1.5 "SF Pro Text", -apple-system, BlinkMacSystemFont, "Segoe UI", sans-serif;
}
.shell {
  width: min(1180px, calc(100vw - 32px));
  margin: 0 auto;
  padding: 34px 0 42px;
}
.topbar {
  display: flex;
  align-items: end;
  justify-content: space-between;
  gap: 24px;
  margin-bottom: 22px;
}
h1 {
  margin: 0;
  font-size: clamp(30px, 3.7vw, 46px);
  line-height: 1.04;
  letter-spacing: 0;
  font-weight: 650;
}
.subtitle {
  margin: 10px 0 0;
  max-width: 58ch;
  color: var(--muted);
}
.plan {
  border: 1px solid var(--line);
  border-radius: 14px;
  padding: 10px 14px;
  background: rgba(17, 24, 32, 0.72);
  color: #d9e6f2;
  white-space: nowrap;
}
.grid {
  display: grid;
  grid-template-columns: repeat(12, 1fr);
  gap: 12px;
}
.card {
  border: 1px solid var(--line);
  border-radius: 16px;
  background:
    linear-gradient(180deg, rgba(255, 255, 255, 0.035), transparent),
    rgba(17, 24, 32, 0.84);
  box-shadow: 0 18px 70px rgba(0, 0, 0, 0.22);
  overflow: hidden;
}
.card.pad { padding: 18px; }
.span-3 { grid-column: span 3; }
.span-4 { grid-column: span 4; }
.span-6 { grid-column: span 6; }
.span-8 { grid-column: span 8; }
.span-12 { grid-column: span 12; }
.label {
  color: var(--quiet);
  font-size: 12px;
  font-weight: 650;
  margin-bottom: 8px;
}
.metric {
  font-size: clamp(23px, 2.8vw, 32px);
  line-height: 1;
  font-weight: 650;
  letter-spacing: 0;
}
.muted { color: var(--muted); }
.small { font-size: 12px; color: var(--quiet); }
.rate-head {
  display: flex;
  justify-content: space-between;
  gap: 18px;
  align-items: start;
  margin-bottom: 14px;
}
.rate-title {
  display: flex;
  align-items: center;
  gap: 8px;
  font-weight: 740;
}
.dot {
  width: 9px;
  height: 9px;
  border-radius: 999px;
  background: var(--dot);
  box-shadow: 0 0 18px var(--dot);
}
.progress {
  height: 8px;
  border-radius: 999px;
  background: #0a0f15;
  border: 1px solid var(--line-soft);
  overflow: hidden;
}
.bar {
  height: 100%;
  width: var(--value);
  background: linear-gradient(90deg, var(--dot), color-mix(in srgb, var(--dot), #ffffff 18%));
  border-radius: inherit;
}
.rate-meta {
  display: flex;
  justify-content: space-between;
  gap: 16px;
  margin-top: 12px;
}
.pace {
  margin-top: 10px;
  color: var(--muted);
  font-size: 12px;
}
.breakdown {
  display: grid;
  gap: 10px;
}
.breakdown-row {
  display: grid;
  grid-template-columns: 1fr auto;
  gap: 16px;
  padding: 10px 0;
  border-bottom: 1px solid var(--line-soft);
}
.breakdown-row:last-child { border-bottom: 0; }
.table-wrap { overflow: hidden; }
table {
  width: 100%;
  table-layout: fixed;
  border-collapse: collapse;
}
th, td {
  padding: 12px 10px;
  text-align: right;
  border-bottom: 1px solid var(--line-soft);
  color: #d8e4ef;
  white-space: nowrap;
}
th {
  color: var(--quiet);
  font-size: 11px;
  font-weight: 700;
}
th:first-child, td:first-child {
  width: 24%;
  text-align: left;
}
th:not(:first-child), td:not(:first-child) {
  width: 12.666%;
}
tr:last-child td { border-bottom: 0; }
.model-name {
  display: inline-flex;
  align-items: center;
  max-width: 100%;
  border: 1px solid var(--line);
  border-radius: 999px;
  padding: 3px 8px;
  background: rgba(255, 255, 255, 0.025);
  font-weight: 650;
  overflow: hidden;
  text-overflow: ellipsis;
  vertical-align: middle;
}
.cost { color: #cfe0ff; font-weight: 720; }
.footer {
  margin-top: 12px;
  color: var(--quiet);
  display: flex;
  justify-content: space-between;
  gap: 16px;
  flex-wrap: wrap;
}
@media (max-width: 860px) {
  .shell { width: min(100vw - 22px, 1180px); padding-top: 22px; }
  .topbar { display: block; }
  .plan { display: inline-flex; margin-top: 16px; }
  .span-3, .span-4, .span-6, .span-8 { grid-column: span 12; }
  th, td { padding: 10px 7px; font-size: 12px; }
  .model-name { max-width: 92px; }
}
</style>
</head>
<body>
<main class="shell">
  <header class="topbar">
    <div>
      <h1>Codex Usage</h1>
      <p class="subtitle">Subscription usage, API-equivalent cost, cached-token pricing and reset windows from local Codex session events.</p>
    </div>
    <div class="plan">"#;

/// What follows the plan.
pub const HEADER_END: &'static str = "</div>\n  </header>\n\n  <section class=\"grid\">\n";

/// What stands before the title of the card of a window.
pub const RATE_CARD_START: &'static str = "    <article class=\"card pad span-6\" style=\"--dot:";

/// What stands before the colour of the card of a window.
pub const RATE_CARD_COLOR: &'static str = "\">\n      <div class=\"rate-head\">\n        <div class=\"rate-title\"><span class=\"dot\"></span><span>";

/// What stands before the percentage in the card of a window.
pub const RATE_CARD_METRIC: &'static str = " rate limit</span></div>\n        <div class=\"metric\">";

/// What follows the percentage in the card of a window.
pub const RATE_CARD_METRIC_END: &'static str = "</div>\n      </div>\n";

/// What stands before the length of the bar in the card of a window.
pub const RATE_CARD_BAR: &'static str = "      <div class=\"progress\"><div class=\"bar\" style=\"--value:";

/// What follows the length of the bar in the card of a window.
pub const RATE_CARD_BAR_END: &'static str = "%\"></div></div>\n";

/// What stands before the time that is left in the card of a window.
pub const RATE_CARD_RESET: &'static str = "      <div class=\"rate-meta\">\n        <span class=\"small\">Resets in <strong class=\"muted\">";

/// What stands before the time of the reset in the card of a window.
pub const RATE_CARD_CLOCK: &'static str = "</strong></span>\n        <span class=\"small\">At <strong class=\"muted\">";

/// The end of the card of a window.
pub const RATE_CARD_END: &'static str = "</strong></span>\n      </div>\n    </article>\n\n";

/// What stands before the colour of the card of the pace.
pub const PACE_CARD_START: &'static str = "    <article class=\"card pad span-12\" style=\"--dot:";

/// What stands before the pace in its card.
pub const PACE_CARD_METRIC: &'static str = "\">\n      <div class=\"rate-head\">\n        <div class=\"rate-title\"><span class=\"dot\"></span><span>Usage pace</span></div>\n        <div class=\"metric\">";

/// What stands before the expected percentage in the card of the pace.
pub const PACE_CARD_EXPECTED: &'static str = "</div>\n      </div>\n        <div class=\"small\">Expected <strong class=\"muted\">";

/// What stands before the name of the window in the card of the pace.
pub const PACE_CARD_WINDOW: &'static str = "%</strong> of the ";

/// The end of the card of the pace.
pub const PACE_CARD_END: &'static str = " window by now.</div>\n    </article>\n\n";

/// The start of the card of the party mode.
pub const PARTY_CARD_START: &'static str = "    <article class=\"card pad span-12\">\n      <div class=\"rate-head\">\n        <div>\n          <div class=\"label\">Party mode</div>\n          <div class=\"metric\">";

/// What stands before the note in the card of the party mode.
pub const PARTY_CARD_NOTE: &'static str = "</div>\n        </div>\n        <div class=\"plan\">";

/// The end of the card of the party mode.
pub const PARTY_CARD_END: &'static str = "</div>\n      </div>\n      <div class=\"small\">Reset notifications always stay enabled. Party mode controls the fullscreen confetti overlay and can be toggled from the tray menu.</div>\n    </article>\n\n";

/// The start of the card of the refresh interval.
pub const REFRESH_CARD_START: &'static str = "    <article class=\"card pad span-12\">\n      <div class=\"rate-head\">\n        <div>\n          <div class=\"label\">Refresh interval</div>\n          <div class=\"metric\">";

/// The end of the card of the refresh interval.
pub const REFRESH_CARD_END: &'static str = "</div>\n        </div>\n        <div class=\"plan\">Tray menu setting</div>\n      </div>\n      <div class=\"small\">This controls how often the app re-walks local Codex session files. Lower values feel more live; higher values use less background work.</div>\n    </article>\n\n";

/// The start of the card of a cost.
pub const COST_CARD_START: &'static str = "    <article class=\"card pad span-4\">\n      <div class=\"label\">";

/// What stands before the amount in the card of a cost.
pub const COST_CARD_METRIC: &'static str = "</div>\n      <div class=\"metric\">";

/// What stands before the tokens in the card of a cost.
pub const COST_CARD_TOKENS: &'static str = "</div>\n      <div class=\"small\">";

/// What follows the tokens in the card of a cost.
pub const COST_CARD_AFTER_TOKENS: &'static str = " tokens</div>\n";

/// What stands before the days of the month in the card of a cost.
pub const COST_CARD_RANGE: &'static str = "      <div class=\"small\">";

/// What follows the days of the month in the card of a cost.
pub const COST_CARD_AFTER_RANGE: &'static str = "</div>\n";

/// The end of the card of a cost.
pub const COST_CARD_END: &'static str = "    </article>\n";

/// The start of the card of the tokens.
pub const BREAKDOWN_START: &'static str = "\n    <article class=\"card pad span-4\">\n      <div class=\"label\">Token breakdown</div>\n      <div class=\"breakdown\">\n";

/// The start of a row in the card of the tokens.
pub const BREAKDOWN_ROW: &'static str = "        <div class=\"breakdown-row\"><span>";

/// What stands before the number in a row of the card of the tokens.
pub const BREAKDOWN_VALUE: &'static str = "</span><strong>";

/// The end of a row in the card of the tokens.
pub const BREAKDOWN_ROW_END: &'static str = "</strong></div>\n";

/// The end of the card of the tokens.
pub const BREAKDOWN_END: &'static str = "      </div>\n    </article>\n\n";

/// The start of the table of models.
pub const TABLE_START: &'static str = "    <article class=\"card span-8\">\n      <div class=\"table-wrap\">\n        <table>\n          <thead>\n            <tr>\n              <th>Model</th>\n              <th>Total</th>\n              <th>Input</th>\n              <th>Cached</th>\n              <th>Output</th>\n              <th>Reasoning</th>\n              <th>Cost</th>\n            </tr>\n          </thead>\n          <tbody>";

/// The end of the table of models.
pub const TABLE_END: &'static str = "</tbody>\n        </table>\n      </div>\n    </article>\n  </section>\n\n";

/// What stands before the number of events.
pub const FOOTER_START: &'static str = "  <footer class=\"footer\">\n    <span>Source: ";

/// What stands before the number of files.
pub const FOOTER_FILES: &'static str = " token_count events from ";

/// The end of the page.
pub const PAGE_END: &'static str = " JSONL files</span>\n    <span>Costs include cached input pricing when token data is present.</span>\n  </footer>\n</main>\n</body>\n</html>";

} // verus!
