# devops-agent

A network monitoring agent for Traefik edges: it searches Elasticsearch for
sources whose requests are refused (401/403), records them as incidents,
lets an operator approve a block (a `ClientIP` rule on an edge deny
IngressRoute), exports the block list and sends abuse reports to the
registry contacts of a source.

## Layout

- `src/` is the verified library (Verus). Every decision the agent makes is
  here with its contract: query validation and clamping, the detection and
  evidence searches, incident selection (allowlisted sources excluded),
  edge-block planning and the edge-block retry protocol as a state machine,
  RDAP parsing, abuse-report texts and provider payloads, the abuse-report
  workflow as a state machine, block-list merging and rendering (CSV,
  Markdown, XLSX), the configuration rules (`${NAME}` references and
  overrides) and the agent tools' results.
- `app/` is the program around it: command line, configuration file,
  SQLite store, HTTP server, and the calls to Elasticsearch, Kubernetes,
  RDAP registries and the email providers.
- `tests/` exercises the library on concrete values.
