# media_proxy_rs

A media proxy for Misskey-style servers. It fetches a remote file on behalf
of a client, refuses requests that would reach private networks (SSRF),
follows redirects by hand so that every hop is checked, and shapes the
response it sends back.

The decisions are a Verus-verified library under `src/`:

- `policy`, `ip`, `netrange`, `urlparts`: the URL and address rules
  (scheme, blocked hosts, built-in, custom and allowed IPv4 networks, IPv6
  special ranges, IPv4-mapped IPv6 addresses judged as IPv4) and the
  runtime configuration they are built from.
- `fetch`: the redirect state machine; it never sends more than five
  requests, and it requests a URL only after checking its scheme and host
  itself and finding every address the caller resolved it to permitted.
- `headers`, `request`, `upstream`, `response`, `disposition`,
  `browsersafe`: header lists, the `Accept` and configured header lines,
  content sniffing, bodies sent as they came (never with a `Content-Type`
  outside the browser-safe list), status mapping, the body size limit and
  the size bounds of each image variant.
- `transform`: the `/transform` upload form.
- `startup`, `config`: configuration defaults, environment lists, the
  listening target and socket mode, and the proxy opt-in.

`app/` is the server around it: configuration files and environment,
DNS, the HTTP client and the axum routes. Image re-encoding and SVG
rendering are not part of this build: such bodies are sent as they came.
