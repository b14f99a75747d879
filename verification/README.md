# Fedigents

The rules of a chat-only Fedimint wallet for the browser, verified with Verus, and the page and
worker that run by them.

- `src/` is the library. Every decision of the wallet is a function here with a contract: the
  calculator's language (`calc`), the agent's tools and prompts (`tools`, `agent`, `http`, `kv`,
  `price`, `skills`), the model service (`ppq`), what the wallet keeps and how it is brought to its
  first deposit (`fedimint`, `bootstrap`), the channel between page and worker (`wallet_runtime`),
  and the page itself (`boot`, `chat`, `menu`, `render`). `text` and `json` are what the contracts
  are stated with. What holds across several functions stands in `pub proof fn law_...`, beside the
  functions or in `calc_laws`, `skills_laws` and `wallet_laws`.
- `tests/` runs the library on concrete values.
- `app/` is ordinary Rust around it: the Leptos page, the web worker, local storage, network
  requests, the federation client, and floating point arithmetic. It expects `browser.js`, the
  page's own script, beside it.

What the library takes on trust is marked `external_body` or `assume_specification`: single calls
into `serde_json`, `reqwest`, `lightning-invoice`, `bip39`, `pulldown-cmark`, `qrcode` and the
standard library, each with a comment that says what is claimed of it.
