# tokos

A terminal monitor for inference servers (vLLM and SGLang) that reads their
Prometheus `/metrics`, and a mock server to try it on. The logic is a library
verified with Verus; a thin program around it does the input and output.

- `src/` — the verified library
  - `text`, `exposition`, `json` — texts, Prometheus exposition text, JSON documents
  - `collectors` — what a scrape says, which backend answers, the request feed
  - `state` — snapshots, ring buffers, rates, histograms, moving averages
  - `exact` — what holds of them where arithmetic orders and computes exactly
  - `config`, `logging`, `report` — options, and the headless JSON report
  - `mock_server` — the mock's metrics, its simulated requests, its side of HTTP
  - `ui` — layout, widgets, panels, the frame, keys and polling
- `tests/` — tests of the library
- `app/` — the program: command line, sockets, threads, the terminal

Values of metrics are double-precision numbers at run time. The library is
generic in their arithmetic: contracts say which operations are applied to what,
and `app/real.rs` supplies the operations.
