//! The page that holds the bookmarks content, and its small building blocks:
//! links, copy buttons and string literals for inline script handlers.

use vstd::prelude::*;

use crate::strings::PROJECT_URL;
use crate::json::{json_contents_spec, json_decode_spec, json_literal_spec, law_json_literal_round_trip};
use crate::text::{
    contains_text, escape, escape_spec, law_unescape_escape, lemma_escape_append, unescape_spec,
};

verus! {

/// The page's style sheet.
pub const STYLE: &'static str = r#"
* { margin: 0; padding: 0; box-sizing: border-box; }
html { background: #1a1a29; }
body { font-family: system-ui, -apple-system, sans-serif; background: #1a1a29; color: #8c8ca6; max-width: 720px; margin: 0 auto; padding: 32px 24px; }
h1 { font-size: 1.4rem; color: #8c8ca6; margin-bottom: 8px; font-weight: 500; }
.subtitle { font-size: 0.85rem; color: #8c8ca6; margin-bottom: 24px; }
.subtitle a { color: #bf4dff; text-decoration: none; }
.subtitle a:hover { text-decoration: underline; }
h2 { font-size: 1rem; color: #8c8ca6; margin-bottom: 12px; text-transform: lowercase; }
.section { margin-bottom: 28px; }
table { width: 100%; border-collapse: collapse; table-layout: fixed; }
col.col-check { width: 28px; }
col.col-name { width: 130px; }
col.col-actions { width: 70px; }
th { text-align: left; font-size: 0.75rem; color: #666680; text-transform: uppercase; letter-spacing: 0.05em; padding: 6px 8px; border-bottom: 1px solid #2e2e47; }
th.sortable { cursor: pointer; user-select: none; }
th.sortable:hover { color: #8c8ca6; }
th.active { color: #bf4dff; }
td { padding: 6px 8px; border-bottom: 1px solid #242438; font-size: 0.85rem; vertical-align: top; overflow: hidden; text-overflow: ellipsis; }
td.check, th.check { text-align: center; overflow: visible; }
td.check input, th.check input { cursor: pointer; accent-color: #bf4dff; }
td.name { color: #bf4dff; font-weight: 500; white-space: nowrap; overflow: hidden; text-overflow: ellipsis; }
td.name a { color: #bf4dff; text-decoration: none; }
td.name a:hover { text-decoration: underline; }
td.url a { color: #22d3ee; text-decoration: none; word-break: break-all; }
td.url a:hover { text-decoration: underline; color: #67e8f9; }
td.aliases { color: #a640f2; font-size: 0.8rem; }
td.entries a { color: #a640f2; text-decoration: none; }
td.entries a:hover { text-decoration: underline; color: #bf4dff; }
.actions { text-align: right; white-space: nowrap; }
.btn { background: none; border: 1px solid #2e2e47; color: #8c8ca6; padding: 2px 8px; border-radius: 4px; cursor: pointer; font-size: 0.75rem; }
.btn:hover { border-color: #666680; color: #edeedf; }
.btn-danger { border-color: #5c2a2a; color: #ff7373; }
.btn-danger:hover { border-color: #ff7373; color: #ffa0a0; }
.btn-add { background: #242438; border-color: #2e2e47; color: #bf4dff; white-space: nowrap; width: 72px; text-align: center; flex-shrink: 0; }
.btn-add:hover { background: #2e2e47; border-color: #666680; }
.bulk-bar { display: none; align-items: center; gap: 8px; margin-bottom: 12px; padding: 8px 12px; background: #242438; border: 1px solid #2e2e47; border-radius: 6px; }
.bulk-bar.visible { display: flex; }
.bulk-bar .bulk-count { font-size: 0.8rem; color: #bf4dff; }
form.inline { display: flex; gap: 6px; align-items: center; margin-top: 6px; }
form.inline input { background: #242438; border: 1px solid #2e2e47; color: #edeedf; padding: 5px 8px; border-radius: 4px; font-size: 0.8rem; min-width: 0; }
form.inline input:first-of-type { flex: 2; }
form.inline input:nth-of-type(2) { flex: 3; }
form.inline input::placeholder { color: #666680; }
form.inline input:focus { outline: none; border-color: #bf4dff; }
.copy-btn { background: none; border: none; color: #666680; cursor: pointer; padding: 0; line-height: 1; flex-shrink: 0; vertical-align: middle; }
.copy-btn:hover { color: #8c8ca6; }
.copy-btn.copied { color: #4ade80; }
td.url .url-cell { display: flex; align-items: center; gap: 6px; }
.error-banner { background: #3a1a2a; border: 1px solid #5c2a2a; color: #ff7373; padding: 8px 12px; border-radius: 6px; margin-bottom: 12px; font-size: 0.8rem; cursor: pointer; }
.editable { cursor: pointer; }
.editable:hover { background: #2e2e47; border-radius: 3px; }
.edit-input { background: #242438; border: 1px solid #bf4dff; color: #edeedf; padding: 3px 6px; border-radius: 3px; font-size: 0.8rem; width: 100%; font-family: inherit; }
.edit-input:focus { outline: none; }
.empty { color: #666680; font-style: italic; font-size: 0.85rem; padding: 12px 0; }
.toolbar { display: flex; gap: 8px; align-items: center; margin-bottom: 16px; }
.toolbar input { background: #242438; border: 1px solid #2e2e47; color: #edeedf; padding: 5px 8px; border-radius: 4px; font-size: 0.8rem; width: 200px; }
.toolbar input::placeholder { color: #666680; }
.toolbar input:focus { outline: none; border-color: #bf4dff; }
.tabs { display: flex; gap: 4px; flex-shrink: 0; }
.tab { background: none; border: 1px solid #2e2e47; color: #8c8ca6; padding: 4px 10px; border-radius: 4px; cursor: pointer; font-size: 0.75rem; }
.tab:hover { color: #edeedf; border-color: #666680; }
.tab.active { color: #bf4dff; border-color: #bf4dff; background: #382952; }
.counts { font-size: 0.7rem; color: #666680; margin-left: 3px; }
.modal-overlay { display: none; position: fixed; inset: 0; background: rgba(0,0,0,0.7); z-index: 100; align-items: center; justify-content: center; }
.modal-overlay.visible { display: flex; }
.modal { background: #141421; border: 1px solid #2e2e47; border-radius: 8px; padding: 24px; max-width: 400px; width: 90%; }
.modal h3 { color: #edeedf; font-size: 1rem; margin-bottom: 8px; }
.modal p { color: #8c8ca6; font-size: 0.85rem; margin-bottom: 16px; line-height: 1.4; }
.modal .modal-actions { display: flex; gap: 8px; justify-content: flex-end; }
.modal .btn-cancel { border-color: #2e2e47; color: #8c8ca6; padding: 6px 16px; font-size: 0.8rem; }
.modal .btn-confirm { background: #3a1a2a; border-color: #ff7373; color: #ff7373; padding: 6px 16px; font-size: 0.8rem; }
@media (max-width: 680px) {
  body { width: auto; padding: 24px 16px; }
  .toolbar { flex-wrap: wrap; }
  .toolbar input { width: 100%; }
  .tabs { width: 100%; }
  .tab { flex: 1; text-align: center; }
  form.inline { flex-wrap: wrap; }
  form.inline input:first-of-type { flex: 1 1 100%; }
  form.inline input:nth-of-type(2) { flex: 1 1 auto; }
  .btn-add { flex-shrink: 0; }
  col.col-name { width: 100px; }
  col.col-actions { width: 60px; }
}
"#;

/// The page's script: fetching and swapping the content, editing in place,
/// confirming deletes, selecting rows in bulk and filtering them.
pub const SCRIPT: &'static str = r#"
var pendingAction = null;

function contentEl() {
  return document.getElementById('content');
}

function afterSwap() {
  updateBulkBar();
  document.querySelectorAll('.select-all').forEach(function(cb) { cb.checked = false; });
}

function swapContent(html) {
  contentEl().innerHTML = html;
  afterSwap();
}

function fetchContent(url) {
  fetch(url, { headers: { 'X-Requested-With': 'fetch' } })
    .then(function(r) { if (!r.ok) throw new Error(r.statusText); return r.text(); })
    .then(swapContent);
}

function postAndSwap(url, body) {
  fetch(url, {
    method: 'POST',
    headers: { 'Content-Type': 'application/x-www-form-urlencoded' },
    body: body || ''
  })
    .then(function(r) { if (!r.ok) throw new Error(r.statusText); return r.text(); })
    .then(swapContent);
}

document.addEventListener('submit', function(e) {
  var form = e.target.closest('form[data-post]');
  if (!form) return;
  e.preventDefault();
  postAndSwap(form.dataset.post, new URLSearchParams(new FormData(form)).toString());
});

document.addEventListener('click', function(e) {
  var trigger = e.target.closest('[data-fetch]');
  if (!trigger) return;
  e.preventDefault();
  fetchContent(trigger.dataset.fetch);
});

function confirmDelete(title, message, action) {
  document.getElementById('confirm-title').textContent = title;
  document.getElementById('confirm-message').textContent = message;
  document.getElementById('confirm-modal').classList.add('visible');
  pendingAction = action;
  document.getElementById('confirm-btn').onclick = function() {
    var action = pendingAction;
    closeModal();
    if (action) action();
  };
}

function closeModal() {
  document.getElementById('confirm-modal').classList.remove('visible');
  pendingAction = null;
}

document.addEventListener('DOMContentLoaded', function() {
  document.getElementById('confirm-modal').addEventListener('click', function(e) {
    if (e.target === this) closeModal();
  });
  document.addEventListener('keydown', function(e) {
    if (e.key === 'Escape') closeModal();
  });
});

function openGroup(urls) {
  urls.forEach(function(u) { window.open(u, '_blank', 'noopener'); });
}

function copyUrl(btn, text) {
  navigator.clipboard.writeText(text).then(function() {
    btn.classList.add('copied');
    btn.innerHTML = '<svg width="14" height="14" viewBox="0 0 24 24" fill="none" stroke="currentColor" stroke-width="2" stroke-linecap="round" stroke-linejoin="round"><polyline points="20 6 9 17 4 12"/></svg>';
    setTimeout(function() {
      btn.classList.remove('copied');
      btn.innerHTML = '<svg width="14" height="14" viewBox="0 0 24 24" fill="none" stroke="currentColor" stroke-width="2" stroke-linecap="round" stroke-linejoin="round"><rect x="9" y="9" width="13" height="13" rx="2" ry="2"/><path d="M5 15H4a2 2 0 0 1-2-2V4a2 2 0 0 1 2-2h9a2 2 0 0 1 2 2v1"/></svg>';
    }, 1500);
  });
}

function startEdit(event, type, name, field, currentValue) {
  var cell = event.target.closest('td');
  if (cell.querySelector('.edit-input')) return;
  var original = cell.innerHTML;
  var done = false;
  var input = document.createElement('input');
  input.className = 'edit-input';
  input.value = currentValue;
  function finish(save) {
    if (done) return;
    done = true;
    if (save && input.value.trim() && input.value !== currentValue) {
      submitEdit(type, name, field, input.value.trim(), cell, original);
    } else {
      cell.innerHTML = original;
    }
  }
  input.addEventListener('keydown', function(e) {
    if (e.key === 'Enter') { e.preventDefault(); finish(true); }
    if (e.key === 'Escape') { finish(false); }
  });
  input.addEventListener('blur', function() { finish(true); });
  cell.innerHTML = '';
  cell.appendChild(input);
  input.focus();
  input.select();
}

function submitEdit(type, name, field, value, cell, original) {
  var params = new URLSearchParams();
  if (field === 'name') params.append('new_name', value);
  if (field === 'url') params.append('new_url', value);
  if (field === 'aliases') params.append('new_aliases', value);
  if (field === 'entries') params.append('new_entries', value);
  fetch('/edit/' + type + '/' + encodeURIComponent(name), {
    method: 'POST',
    headers: { 'Content-Type': 'application/x-www-form-urlencoded' },
    body: params.toString()
  })
    .then(function(r) { if (!r.ok) throw new Error(r.statusText); return r.text(); })
    .then(swapContent)
    .catch(function() { cell.innerHTML = original; });
}

function deleteSingle(type, name) {
  confirmDelete(
    'delete ' + type,
    'are you sure you want to delete ' + type + ' "' + name + '"? this cannot be undone.',
    function() { postAndSwap('/delete/' + type + '/' + encodeURIComponent(name)); }
  );
}

function updateBulkBar() {
  var checked = document.querySelectorAll('input.row-check:checked');
  var bar = document.getElementById('bulk-bar');
  var count = document.getElementById('bulk-count');
  if (!bar || !count) return;
  if (checked.length > 0) {
    bar.classList.add('visible');
    count.textContent = checked.length + ' selected';
  } else {
    bar.classList.remove('visible');
  }
}

function toggleAll(src) {
  document.querySelectorAll('input.row-check').forEach(function(cb) {
    if (cb.closest('tr').style.display !== 'none') cb.checked = src.checked;
  });
  updateBulkBar();
}

function clearSelected() {
  document.querySelectorAll('input.row-check').forEach(function(cb) { cb.checked = false; });
  updateBulkBar();
}

function deleteSelected() {
  var checked = document.querySelectorAll('input.row-check:checked');
  if (checked.length === 0) return;
  var items = [];
  checked.forEach(function(cb) { items.push(cb.dataset.type + ' "' + cb.dataset.name + '"'); });
  confirmDelete(
    'delete ' + checked.length + ' item' + (checked.length > 1 ? 's' : ''),
    'are you sure you want to delete: ' + items.join(', ') + '? this cannot be undone.',
    function() {
      var toDelete = [];
      checked.forEach(function(cb) {
        toDelete.push({ type: cb.dataset.type, name: cb.dataset.name });
      });
      var i = 0;
      function next() {
        if (i >= toDelete.length) {
          fetchContent('/content');
          return;
        }
        var item = toDelete[i++];
        fetch('/delete/' + item.type + '/' + encodeURIComponent(item.name), { method: 'POST' }).then(next);
      }
      next();
    }
  );
}

function filterRows() {
  var q = document.getElementById('search').value.toLowerCase();
  document.querySelectorAll('table tr[data-filter]').forEach(function(row) {
    row.style.display = row.getAttribute('data-filter').toLowerCase().includes(q) ? '' : 'none';
  });
}

function showTab(tab) {
  ['urls','groups'].forEach(function(t) {
    var el = document.getElementById('section-' + t);
    var btn = document.getElementById('tab-' + t);
    if (el) el.style.display = (t === tab || tab === 'all') ? '' : 'none';
    if (btn) btn.classList.toggle('active', t === tab);
  });
  var allBtn = document.getElementById('tab-all');
  if (allBtn) allBtn.classList.toggle('active', tab === 'all');
  filterRows();
}
"#;

// The fixed pieces of the page and row templates, each in the order it is written.

// Pieces of the page around the content.
pub const PAGE_0: &'static str = "<!DOCTYPE html>\n<html lang=\"en\">\n<head>\n  <meta charset=\"utf-8\">\n  <meta name=\"viewport\" content=\"width=device-width, initial-scale=1\">\n  <title>bookmarks</title>\n  <style>";
pub const PAGE_1: &'static str = "</style>\n</head>\n<body>\n  <h1>Bookmarks</h1>\n  <p class=\"subtitle\"><a href=\"";
pub const PAGE_2: &'static str = "\" target=\"_blank\" rel=\"noopener\">bookmarks</a> in your filesystem</p>\n  <div id=\"content\">\n    ";
pub const PAGE_3: &'static str = "\n  </div>\n  <div class=\"modal-overlay\" id=\"confirm-modal\">\n    <div class=\"modal\">\n      <h3 id=\"confirm-title\">confirm delete</h3>\n      <p id=\"confirm-message\"></p>\n      <div class=\"modal-actions\">\n        <button class=\"btn btn-cancel\" onclick=\"closeModal()\">cancel</button>\n        <button class=\"btn btn-confirm\" id=\"confirm-btn\">delete</button>\n      </div>\n    </div>\n  </div>\n  <script>";
pub const PAGE_4: &'static str = "</script>\n</body>\n</html>";

// Pieces of a link that opens a url in a new tab.
pub const LINK_0: &'static str = "<a href=\"";
pub const LINK_1: &'static str = "\" target=\"_blank\" rel=\"noopener\" title=\"";
pub const LINK_2: &'static str = "\">";
pub const LINK_3: &'static str = "</a>";

// Pieces of the button that copies a url.
pub const COPY_0: &'static str = "<button class=\"copy-btn\" onclick=\"copyUrl(this,";
pub const COPY_1: &'static str = ")\" title=\"copy to clipboard\"><svg width=\"14\" height=\"14\" viewBox=\"0 0 24 24\" fill=\"none\" stroke=\"currentColor\" stroke-width=\"2\" stroke-linecap=\"round\" stroke-linejoin=\"round\"><rect x=\"9\" y=\"9\" width=\"13\" height=\"13\" rx=\"2\" ry=\"2\"/><path d=\"M5 15H4a2 2 0 0 1-2-2V4a2 2 0 0 1 2-2h9a2 2 0 0 1 2 2v1\"/></svg></button>";

// Pieces of the aliases cell of a url without aliases.
pub const NO_ALIASES_0: &'static str = "<span style=\"color:#666680;font-size:0.8rem;font-style:italic\">+ aliases</span>";

// Pieces of the aliases cell of a url with aliases.
pub const ALIASES_0: &'static str = "<span style=\"color:#a640f2;font-size:0.8rem\">";
pub const ALIASES_1: &'static str = "</span>";

// Pieces of the row of a url.
pub const URL_ROW_0: &'static str = "<tr data-filter=\"";
pub const URL_ROW_1: &'static str = " ";
pub const URL_ROW_2: &'static str = " ";
pub const URL_ROW_3: &'static str = "\">\n  <td class=\"check\"><input type=\"checkbox\" class=\"row-check\" data-type=\"url\" data-name=\"";
pub const URL_ROW_4: &'static str = "\" onchange=\"updateBulkBar()\"></td>\n  <td class=\"name editable\" ondblclick=\"startEdit(event,'url',";
pub const URL_ROW_5: &'static str = ",'name',";
pub const URL_ROW_6: &'static str = ")\">";
pub const URL_ROW_7: &'static str = "</td>\n  <td class=\"url editable\" ondblclick=\"startEdit(event,'url',";
pub const URL_ROW_8: &'static str = ",'url',";
pub const URL_ROW_9: &'static str = ")\"><span class=\"url-cell\">";
pub const URL_ROW_10: &'static str = "<a href=\"";
pub const URL_ROW_11: &'static str = "\" target=\"_blank\" rel=\"noopener\">";
pub const URL_ROW_12: &'static str = "</a></span></td>\n  <td class=\"aliases editable\" ondblclick=\"startEdit(event,'url',";
pub const URL_ROW_13: &'static str = ",'aliases',";
pub const URL_ROW_14: &'static str = ")\">";
pub const URL_ROW_15: &'static str = "</td>\n  <td class=\"actions\">\n    <button class=\"btn btn-danger\" onclick=\"deleteSingle('url',";
pub const URL_ROW_16: &'static str = ")\">delete</button>\n  </td>\n</tr>";

// Pieces of the name cell of a group that opens its urls.
pub const GROUP_OPEN_0: &'static str = "<a href=\"#\" onclick=\"openGroup([";
pub const GROUP_OPEN_1: &'static str = "]);return false;\" title=\"open all ";
pub const GROUP_OPEN_2: &'static str = " urls\">";
pub const GROUP_OPEN_3: &'static str = "</a>";

// Pieces of the row of a group.
pub const GROUP_ROW_0: &'static str = "<tr data-filter=\"";
pub const GROUP_ROW_1: &'static str = " ";
pub const GROUP_ROW_2: &'static str = "\">\n  <td class=\"check\"><input type=\"checkbox\" class=\"row-check\" data-type=\"group\" data-name=\"";
pub const GROUP_ROW_3: &'static str = "\" onchange=\"updateBulkBar()\"></td>\n  <td class=\"name editable\" ondblclick=\"startEdit(event,'group',";
pub const GROUP_ROW_4: &'static str = ",'name',";
pub const GROUP_ROW_5: &'static str = ")\">";
pub const GROUP_ROW_6: &'static str = "</td>\n  <td class=\"entries editable\" ondblclick=\"startEdit(event,'group',";
pub const GROUP_ROW_7: &'static str = ",'entries',";
pub const GROUP_ROW_8: &'static str = ")\">";
pub const GROUP_ROW_9: &'static str = "</td>\n  <td class=\"actions\">\n    <button class=\"btn btn-danger\" onclick=\"deleteSingle('group',";
pub const GROUP_ROW_10: &'static str = ")\">delete</button>\n  </td>\n</tr>";

// Pieces of the filter box and the tabs.
pub const TOOLBAR_0: &'static str = "<div class=\"toolbar\">\n  <input id=\"search\" type=\"text\" placeholder=\"";
pub const TOOLBAR_1: &'static str = "\" oninput=\"filterRows()\" autocomplete=\"off\">\n  <div class=\"tabs\">\n    <button id=\"tab-all\" class=\"tab active\" onclick=\"showTab('all')\">all</button>\n    <button id=\"tab-urls\" class=\"tab\" onclick=\"showTab('urls')\">urls<span class=\"counts\">";
pub const TOOLBAR_2: &'static str = "</span></button>\n    <button id=\"tab-groups\" class=\"tab\" onclick=\"showTab('groups')\">groups<span class=\"counts\">";
pub const TOOLBAR_3: &'static str = "</span></button>\n  </div>\n</div>";

// Pieces of the error banner.
pub const BANNER_0: &'static str = "<div class=\"error-banner\" onclick=\"this.remove()\">";
pub const BANNER_1: &'static str = " <span style=\"margin-left:8px;cursor:pointer;opacity:0.6\">x</span></div>";

// Pieces of the bar for deleting selected rows.
pub const BULK_BAR_0: &'static str = "<div class=\"bulk-bar\" id=\"bulk-bar\">\n  <span class=\"bulk-count\" id=\"bulk-count\">0 selected</span>\n  <button class=\"btn btn-danger\" onclick=\"deleteSelected()\">delete selected</button>\n  <button class=\"btn\" onclick=\"clearSelected()\">clear</button>\n</div>";

// Pieces of the forms for adding a url and a group.
pub const FORMS_0: &'static str = "<div class=\"section\">\n<form class=\"inline\" data-post=\"/add/url\" action=\"/add/url\" method=\"post\">\n  <input name=\"name\" placeholder=\"";
pub const FORMS_1: &'static str = "\" required>\n  <input name=\"url\" placeholder=\"";
pub const FORMS_2: &'static str = "\" required>\n  <button class=\"btn btn-add\" type=\"submit\">+ url</button>\n</form>\n<form class=\"inline\" data-post=\"/add/group\" action=\"/add/group\" method=\"post\">\n  <input name=\"name\" placeholder=\"";
pub const FORMS_3: &'static str = "\" required>\n  <input name=\"entries\" placeholder=\"";
pub const FORMS_4: &'static str = "\" required>\n  <button class=\"btn btn-add\" type=\"submit\">+ group</button>\n</form>\n</div>";

// Pieces of the heading of the url section.
pub const URLS_HEAD_0: &'static str = "<div class=\"section\" id=\"section-urls\"><h2>urls</h2>";

// Pieces of the note for a configuration without urls.
pub const NO_URLS_0: &'static str = "<p class=\"empty\">no urls yet</p>";

// Pieces of the head of the url table.
pub const URL_TABLE_0: &'static str = "<table><colgroup><col class=\"col-check\"><col class=\"col-name\"><col class=\"col-value\"><col style=\"width:120px\"><col class=\"col-actions\"></colgroup><tr><th class=\"check\"><input type=\"checkbox\" class=\"select-all\" onchange=\"toggleAll(this)\"></th><th class=\"sortable";
pub const URL_TABLE_1: &'static str = "\" data-fetch=\"/content?sort=name\">name</th><th class=\"sortable";
pub const URL_TABLE_2: &'static str = "\" data-fetch=\"/content?sort=url\">url</th><th>aliases</th><th></th></tr>";

// Pieces of the heading of the group section.
pub const GROUPS_HEAD_0: &'static str = "<div class=\"section\" id=\"section-groups\"><h2>groups</h2>";

// Pieces of the note for a configuration without groups.
pub const NO_GROUPS_0: &'static str = "<p class=\"empty\">no groups yet</p>";

// Pieces of the head of the group table.
pub const GROUP_TABLE_0: &'static str = "<table><colgroup><col class=\"col-check\"><col class=\"col-name\"><col class=\"col-value\"><col class=\"col-actions\"></colgroup><tr><th class=\"check\"><input type=\"checkbox\" class=\"select-all\" onchange=\"toggleAll(this)\"></th><th class=\"sortable";
pub const GROUP_TABLE_1: &'static str = "\" data-fetch=\"/content?sort=name\">group</th><th>entries</th><th></th></tr>";


#[verifier::external_type_specification]
#[verifier::external_body]
pub struct ExJsonError(serde_json::Error);

/// `serde_json::to_string` on a string slice. Its source serializes a `str` by
/// writing `"`, the characters and `"` into a `Vec<u8>`, escaping through its
/// byte table: `"` and `\` as `\"` and `\\`; U+0008, tab, line feed, U+000C
/// and carriage return by their short escapes; every other byte below 0x20 as
/// `\u00` and two lower-case hexadecimal digits; all other bytes, and so all
/// other characters, unchanged. Writing into a vector does not fail, so the
/// call returns `Ok`.
#[verifier::external_body]
fn json_quote(s: &str) -> (r: Result<String, serde_json::Error>)
    ensures
        r is Ok,
        r matches Ok(t) ==> t@ == json_literal_spec(s@),
{
    serde_json::to_string(s)
}

/// A text as a JavaScript string literal that can stand inside a quoted HTML
/// attribute: the JSON string literal of the text, HTML-escaped.
pub open spec fn js_attr_spec(s: Seq<char>) -> Seq<char> {
    escape_spec(json_literal_spec(s))
}

/// A text as a JavaScript string literal for an inline event handler.
pub fn js_attr_string(s: &str) -> (r: String)
    ensures
        r@ == js_attr_spec(s@),
        forall|k: int| 0 <= k < r@.len() ==> r@[k] != '<' && r@[k] != '>' && r@[k] != '"',
        r@.len() >= 12,
        r@.take(6) == "&quot;"@,
        r@.skip(r@.len() - 6) == "&quot;"@,
        json_decode_spec(unescape_spec(r@)) == Some(s@),
{
    let literal = match json_quote(s) {
        Ok(t) => t,
        Err(_) => String::from_str("\"\""),
    };
    let r = escape(literal.as_str());
    proof {
        reveal_strlit("&quot;");
        let mid = json_contents_spec(s@);
        lemma_escape_append(seq!['"'] + mid, seq!['"']);
        lemma_escape_append(seq!['"'], mid);
        assert(escape_spec(seq!['"']) == escape_spec(Seq::<char>::empty()) + "&quot;"@) by {
            assert(seq!['"'].drop_last() == Seq::<char>::empty());
        }
        assert(escape_spec(seq!['"']) == "&quot;"@);
        let e = escape_spec(mid);
        assert(r@ == "&quot;"@ + e + "&quot;"@);
        assert(r@.take(6) == "&quot;"@);
        assert(r@.skip(r@.len() - 6) == "&quot;"@);
        law_js_attr_round_trip(s@);
    }
    r
}

/// A script string literal in an attribute gives back its text: the browser
/// undoes the HTML escapes and the script reads the JSON string literal that
/// is left, which is the text itself.
pub proof fn law_js_attr_round_trip(s: Seq<char>)
    ensures
        json_decode_spec(unescape_spec(js_attr_spec(s))) == Some(s),
{
    law_unescape_escape(json_literal_spec(s));
    law_json_literal_round_trip(s);
}

/// A link that shows `name` and opens `url` in a new tab.
pub open spec fn linked_name_spec(name: Seq<char>, url: Seq<char>) -> Seq<char> {
    let n = escape_spec(name);
    let u = escape_spec(url);
    LINK_0@ + u + LINK_1@ + u + LINK_2@ + n + LINK_3@
}

/// A link that shows `name` and opens `url` in a new tab.
pub fn linked_name(name: &str, url: &str) -> (r: String)
    ensures
        r@ == linked_name_spec(name@, url@),
{
    let n = escape(name);
    let u = escape(url);
    let mut out = String::from_str(LINK_0);
    out.append(u.as_str());
    out.append(LINK_1);
    out.append(u.as_str());
    out.append(LINK_2);
    out.append(n.as_str());
    out.append(LINK_3);
    out
}

/// A button that copies `url` to the clipboard.
pub open spec fn copy_btn_spec(url: Seq<char>) -> Seq<char> {
    COPY_0@ + js_attr_spec(url) + COPY_1@
}

/// A button that copies `url` to the clipboard.
pub fn copy_btn(url: &str) -> (r: String)
    ensures
        r@ == copy_btn_spec(url@),
{
    let uj = js_attr_string(url);
    let mut out = String::from_str(COPY_0);
    out.append(uj.as_str());
    out.append(COPY_1);
    out
}

/// The whole page around the content `body`.
pub open spec fn page_spec(body: Seq<char>) -> Seq<char> {
    PAGE_0@ + STYLE@ + PAGE_1@ + PROJECT_URL@ + PAGE_2@ + body + PAGE_3@ + SCRIPT@ + PAGE_4@
}

/// The page holds its script and its style sheet: the page script stands
/// between `<script>` and `</script>`, the style sheet between `<style>` and
/// `</style>`, and the body stands in the page as it was given.
pub proof fn law_page_holds_script(body: Seq<char>)
    ensures
        contains_text(page_spec(body), "<script>"@ + SCRIPT@ + "</script>"@),
        contains_text(page_spec(body), "<style>"@ + STYLE@ + "</style>"@),
        contains_text(page_spec(body), body),
{
    reveal_strlit("<!DOCTYPE html>\n<html lang=\"en\">\n<head>\n  <meta charset=\"utf-8\">\n  <meta name=\"viewport\" content=\"width=device-width, initial-scale=1\">\n  <title>bookmarks</title>\n  <style>");
    reveal_strlit("</style>\n</head>\n<body>\n  <h1>Bookmarks</h1>\n  <p class=\"subtitle\"><a href=\"");
    reveal_strlit("<style>");
    reveal_strlit("</style>");
    let p0 = PAGE_0@;
    let p1 = PAGE_1@;
    let before_style = p0.take(p0.len() - 7);
    let after_style = p1.skip(8);
    assert(p0 =~= before_style + "<style>"@);
    assert(p1 =~= "</style>"@ + after_style);
    assert(page_spec(body) =~= before_style + ("<style>"@ + STYLE@ + "</style>"@) + (after_style
        + PROJECT_URL@ + PAGE_2@ + body + PAGE_3@ + SCRIPT@ + PAGE_4@));
    reveal_strlit("\n  </div>\n  <div class=\"modal-overlay\" id=\"confirm-modal\">\n    <div class=\"modal\">\n      <h3 id=\"confirm-title\">confirm delete</h3>\n      <p id=\"confirm-message\"></p>\n      <div class=\"modal-actions\">\n        <button class=\"btn btn-cancel\" onclick=\"closeModal()\">cancel</button>\n        <button class=\"btn btn-confirm\" id=\"confirm-btn\">delete</button>\n      </div>\n    </div>\n  </div>\n  <script>");
    reveal_strlit("</script>\n</body>\n</html>");
    reveal_strlit("<script>");
    reveal_strlit("</script>");
    let p3 = PAGE_3@;
    let p4 = PAGE_4@;
    let head = PAGE_0@ + STYLE@ + PAGE_1@ + PROJECT_URL@ + PAGE_2@;
    let opening = p3.take(p3.len() - 8);
    let tail = p4.skip(9);
    assert(p3 =~= opening + "<script>"@);
    assert(p4 =~= "</script>"@ + tail);
    assert(page_spec(body) =~= (head + body + opening) + ("<script>"@ + SCRIPT@ + "</script>"@)
        + tail);
    assert(page_spec(body) =~= head + body + (p3 + SCRIPT@ + p4));
}

/// The whole page around the content `body`.
pub fn page(body: &str) -> (r: String)
    ensures
        r@ == page_spec(body@),
{
    let mut out = String::from_str(PAGE_0);
    out.append(STYLE);
    out.append(PAGE_1);
    out.append(PROJECT_URL);
    out.append(PAGE_2);
    out.append(body);
    out.append(PAGE_3);
    out.append(SCRIPT);
    out.append(PAGE_4);
    out
}

} // verus!
